//! The persisted material document: a small textual record with the
//! three diffuse channels, an optional diffuse-texture id and an
//! optional normal-texture id.
//!
//! The channel values are carried as opaque numeral tokens: the host
//! formats and parses the floating-point text, the core never computes
//! on it.  Texture ids are written as decimal numerals, an absent id
//! as `null`.  Parsing is strict: it accepts exactly the documents
//! `encode` produces, and parsing an encoded document yields the same
//! fields back.

use vstd::prelude::*;

verus! {

/// A material document held on the CPU: three channel tokens and two
/// optional texture ids.
pub struct MaterialDoc {
    pub red: String,
    pub green: String,
    pub blue: String,
    pub diffuse_texture: Option<u64>,
    pub normal_texture: Option<u64>,
}

/// The mathematical image of a document.
#[verifier::ext_equal]
pub struct SpecDoc {
    pub red: Seq<char>,
    pub green: Seq<char>,
    pub blue: Seq<char>,
    pub diffuse_texture: Option<u64>,
    pub normal_texture: Option<u64>,
}

impl View for MaterialDoc {
    type V = SpecDoc;

    open spec fn view(&self) -> SpecDoc {
        SpecDoc {
            red: self.red@,
            green: self.green@,
            blue: self.blue@,
            diffuse_texture: self.diffuse_texture,
            normal_texture: self.normal_texture,
        }
    }
}

/// A channel token: nonempty and free of line breaks, so the document
/// structure stays unambiguous.
pub open spec fn token_wf(s: Seq<char>) -> bool {
    s.len() > 0 && forall|i: int| 0 <= i < s.len() ==> s[i] != '\n'
}

impl SpecDoc {
    pub open spec fn wf(&self) -> bool {
        token_wf(self.red) && token_wf(self.green) && token_wf(self.blue)
    }
}

/// True when `c` is a decimal digit.
pub open spec fn is_digit(c: char) -> bool {
    48 <= c as u32 <= 57
}

/// The value of a decimal digit.
pub open spec fn digit_val(c: char) -> nat {
    (c as u32 - 48) as nat
}

/// The decimal digit character for `d`.
pub open spec fn digit_char(d: nat) -> char {
    if d == 0 {
        '0'
    } else if d == 1 {
        '1'
    } else if d == 2 {
        '2'
    } else if d == 3 {
        '3'
    } else if d == 4 {
        '4'
    } else if d == 5 {
        '5'
    } else if d == 6 {
        '6'
    } else if d == 7 {
        '7'
    } else if d == 8 {
        '8'
    } else {
        '9'
    }
}

/// The decimal numeral of `x`, most significant digit first.
pub open spec fn dec_digits(x: nat) -> Seq<char>
    decreases x,
{
    if x < 10 {
        seq![digit_char(x)]
    } else {
        dec_digits(x / 10).push(digit_char(x % 10))
    }
}

/// True when every character of `s` is a decimal digit.
pub open spec fn all_digits(s: Seq<char>) -> bool {
    forall|i: int| 0 <= i < s.len() ==> is_digit(#[trigger] s[i])
}

/// The number a digit sequence denotes.
pub open spec fn dec_value(s: Seq<char>) -> nat
    decreases s.len(),
{
    if s.len() == 0 {
        0
    } else {
        dec_value(s.drop_last()) * 10 + digit_val(s.last())
    }
}

/// The numeral of `x` denotes `x`, consists of digits only, and is a
/// well-formed token.
pub proof fn lemma_dec_digits(x: nat)
    ensures
        dec_value(dec_digits(x)) == x,
        all_digits(dec_digits(x)),
        token_wf(dec_digits(x)),
    decreases x,
{
    if x < 10 {
        assert(dec_digits(x) =~= seq![digit_char(x)]);
        assert(dec_digits(x).drop_last() =~= Seq::<char>::empty());
        assert(dec_value(Seq::<char>::empty()) == 0);
        assert(digit_val(digit_char(x)) == x);
    } else {
        assert(x / 10 < x && x / 10 >= 1 && x % 10 < 10) by (nonlinear_arith)
            requires
                x >= 10,
        ;
        lemma_dec_digits(x / 10);
        let s = dec_digits(x);
        assert(s.drop_last() =~= dec_digits(x / 10));
        assert(digit_val(digit_char(x % 10)) == x % 10);
        assert((x / 10) * 10 + x % 10 == x) by (nonlinear_arith);
        assert forall|i: int| 0 <= i < s.len() implies is_digit(#[trigger] s[i]) by {
            if i < s.len() - 1 {
                assert(s[i] == dec_digits(x / 10)[i]);
            }
        }
        assert forall|i: int| 0 <= i < s.len() implies s[i] != '\n' by {
            assert(is_digit(s[i]));
        }
    }
}

/// The characters of an optional texture id: its decimal numeral, or
/// `null`.
pub open spec fn id_chars(id: Option<u64>) -> Seq<char> {
    match id {
        None => "null"@,
        Some(x) => dec_digits(x as nat),
    }
}

/// The whole document as characters.
pub open spec fn doc_chars(d: SpecDoc) -> Seq<char> {
    "diffuse:\n- "@ + d.red + "\n- "@ + d.green + "\n- "@ + d.blue + "\ndiffuse_texture:\n  id: "@
        + id_chars(d.diffuse_texture) + "\nnormal_texture:\n  id: "@ + id_chars(d.normal_texture)
        + "\n"@
}

/// The digit character for an executable digit.
fn digit_str(d: u64) -> (s: &'static str)
    requires
        d < 10,
    ensures
        s@ == seq![digit_char(d as nat)],
{
    proof {
        reveal_strlit("0");
        reveal_strlit("1");
        reveal_strlit("2");
        reveal_strlit("3");
        reveal_strlit("4");
        reveal_strlit("5");
        reveal_strlit("6");
        reveal_strlit("7");
        reveal_strlit("8");
        reveal_strlit("9");
    }
    match d {
        0 => "0",
        1 => "1",
        2 => "2",
        3 => "3",
        4 => "4",
        5 => "5",
        6 => "6",
        7 => "7",
        8 => "8",
        _ => "9",
    }
}

/// Appends the decimal numeral of `x`.
fn append_dec(out: &mut String, x: u64)
    ensures
        final(out)@ == old(out)@ + dec_digits(x as nat),
    decreases x,
{
    if x >= 10 {
        append_dec(out, x / 10);
        out.append(digit_str(x % 10));
        proof {
            assert(out@ =~= old(out)@ + dec_digits(x as nat));
        }
    } else {
        out.append(digit_str(x));
        proof {
            assert(out@ =~= old(out)@ + dec_digits(x as nat));
        }
    }
}

/// Appends an optional texture id.
fn append_id(out: &mut String, id: Option<u64>)
    ensures
        final(out)@ == old(out)@ + id_chars(id),
{
    match id {
        None => out.append("null"),
        Some(x) => append_dec(out, x),
    }
}

/// Produces the document text for `doc`: exactly `doc_chars`.
pub fn encode(doc: &MaterialDoc) -> (s: String)
    ensures
        s@ == doc_chars(doc@),
{
    let mut s = String::new();
    s.append("diffuse:\n- ");
    s.append(doc.red.as_str());
    s.append("\n- ");
    s.append(doc.green.as_str());
    s.append("\n- ");
    s.append(doc.blue.as_str());
    s.append("\ndiffuse_texture:\n  id: ");
    append_id(&mut s, doc.diffuse_texture);
    s.append("\nnormal_texture:\n  id: ");
    append_id(&mut s, doc.normal_texture);
    s.append("\n");
    proof {
        assert(s@ =~= doc_chars(doc@));
    }
    s
}

/// Index of the first line break at or after `i`, or the length when
/// there is none.
pub open spec fn find_newline(s: Seq<char>, i: int) -> int
    recommends
        0 <= i <= s.len(),
    decreases s.len() - i,
    when 0 <= i <= s.len()
{
    if i >= s.len() {
        s.len() as int
    } else if s[i] == '\n' {
        i
    } else {
        find_newline(s, i + 1)
    }
}

/// When the characters from `i` up to `j` are no line breaks and `j`
/// is one (or the end), the first line break search lands on `j`.
proof fn lemma_find_newline_at(s: Seq<char>, i: int, j: int)
    requires
        0 <= i <= j <= s.len(),
        forall|k: int| i <= k < j ==> s[k] != '\n',
        j < s.len() ==> s[j] == '\n',
    ensures
        find_newline(s, i) == j,
    decreases j - i,
{
    if i < j {
        lemma_find_newline_at(s, i + 1, j);
    }
}

/// True when `p` occurs in `s` at position `i`.
pub open spec fn starts_with(s: Seq<char>, i: int, p: Seq<char>) -> bool {
    0 <= i && i + p.len() <= s.len() && s.subrange(i, i + p.len()) == p
}

/// What a texture id region denotes: `null`, a decimal numeral that
/// fits, or nothing.
pub open spec fn parse_id(t: Seq<char>) -> Option<Option<u64>> {
    if t == "null"@ {
        Some(None)
    } else if t.len() > 0 && all_digits(t) && dec_value(t) <= u64::MAX {
        Some(Some(dec_value(t) as u64))
    } else {
        None
    }
}

/// The strict parse of a document: the fields of the unique document
/// whose text is `s`, or nothing.
pub open spec fn parse_doc(s: Seq<char>) -> Option<SpecDoc> {
    let l1 = "diffuse:\n- "@;
    let l2 = "\n- "@;
    let l3 = "\ndiffuse_texture:\n  id: "@;
    let l4 = "\nnormal_texture:\n  id: "@;
    let l5 = "\n"@;
    if !starts_with(s, 0, l1) {
        None
    } else {
        let i1 = l1.len() as int;
        let j1 = find_newline(s, i1);
        let red = s.subrange(i1, j1);
        if red.len() == 0 || !starts_with(s, j1, l2) {
            None
        } else {
            let i2 = j1 + l2.len();
            let j2 = find_newline(s, i2);
            let green = s.subrange(i2, j2);
            if green.len() == 0 || !starts_with(s, j2, l2) {
                None
            } else {
                let i3 = j2 + l2.len();
                let j3 = find_newline(s, i3);
                let blue = s.subrange(i3, j3);
                if blue.len() == 0 || !starts_with(s, j3, l3) {
                    None
                } else {
                    let i4 = j3 + l3.len();
                    let j4 = find_newline(s, i4);
                    let dt = parse_id(s.subrange(i4, j4));
                    if dt is None || !starts_with(s, j4, l4) {
                        None
                    } else {
                        let i5 = j4 + l4.len();
                        let j5 = find_newline(s, i5);
                        let nt = parse_id(s.subrange(i5, j5));
                        if nt is None || !starts_with(s, j5, l5) || j5 + l5.len() != s.len() {
                            None
                        } else {
                            Some(
                                SpecDoc {
                                    red,
                                    green,
                                    blue,
                                    diffuse_texture: dt->Some_0,
                                    normal_texture: nt->Some_0,
                                },
                            )
                        }
                    }
                }
            }
        }
    }
}

/// The middle piece of a concatenation of three is recovered by its
/// offsets.
proof fn lemma_concat_middle<T>(a: Seq<T>, b: Seq<T>, c: Seq<T>)
    ensures
        (a + b + c).subrange(a.len() as int, a.len() + b.len() as int) =~= b,
{
}

/// The numeral of an id region is free of line breaks.
proof fn lemma_id_chars_token(id: Option<u64>)
    ensures
        token_wf(id_chars(id)),
{
    reveal_strlit("null");
    match id {
        None => {
            assert forall|i: int| 0 <= i < "null"@.len() implies "null"@[i] != '\n' by {}
        },
        Some(x) => {
            lemma_dec_digits(x as nat);
        },
    }
}

/// A numeral is not the word `null`.
proof fn lemma_digits_not_null(t: Seq<char>)
    requires
        t.len() > 0,
        all_digits(t),
    ensures
        t != "null"@,
{
    reveal_strlit("null");
    if t == "null"@ {
        assert(is_digit(t[0]));
        assert(t[0] == 'n');
    }
}

/// An id region parses back to the id it was written from.
proof fn lemma_parse_id_round_trip(id: Option<u64>)
    ensures
        parse_id(id_chars(id)) == Some(id),
{
    match id {
        None => {},
        Some(x) => {
            lemma_dec_digits(x as nat);
            lemma_digits_not_null(dec_digits(x as nat));
        },
    }
}

/// Saving then loading is the identity on the document's fields: the
/// text written for any well-formed document parses back to exactly
/// that document.
#[verifier::rlimit(100)]
#[verifier::spinoff_prover]
pub proof fn lemma_document_round_trip(d: SpecDoc)
    requires
        d.wf(),
    ensures
        parse_doc(doc_chars(d)) == Some(d),
{
    reveal_strlit("diffuse:\n- ");
    reveal_strlit("\n- ");
    reveal_strlit("\ndiffuse_texture:\n  id: ");
    reveal_strlit("\nnormal_texture:\n  id: ");
    reveal_strlit("\n");
    let l1 = "diffuse:\n- "@;
    let l2 = "\n- "@;
    let l3 = "\ndiffuse_texture:\n  id: "@;
    let l4 = "\nnormal_texture:\n  id: "@;
    let l5 = "\n"@;
    let id1 = id_chars(d.diffuse_texture);
    let id2 = id_chars(d.normal_texture);
    lemma_id_chars_token(d.diffuse_texture);
    lemma_id_chars_token(d.normal_texture);
    lemma_parse_id_round_trip(d.diffuse_texture);
    lemma_parse_id_round_trip(d.normal_texture);
    let s = doc_chars(d);

    let i1 = l1.len() as int;
    let j1 = i1 + d.red.len();
    let i2 = j1 + l2.len();
    let j2 = i2 + d.green.len();
    let i3 = j2 + l2.len();
    let j3 = i3 + d.blue.len();
    let i4 = j3 + l3.len();
    let j4 = i4 + id1.len();
    let i5 = j4 + l4.len();
    let j5 = i5 + id2.len();

    // Each piece of the document sits at its offset.
    assert(s =~= Seq::<char>::empty() + l1 + (d.red + l2 + d.green + l2 + d.blue + l3 + id1 + l4
        + id2 + l5));
    lemma_concat_middle(Seq::<char>::empty(), l1, d.red + l2 + d.green + l2 + d.blue + l3 + id1
        + l4 + id2 + l5);
    assert(s =~= (l1) + d.red + (l2 + d.green + l2 + d.blue + l3 + id1 + l4 + id2 + l5));
    lemma_concat_middle(l1, d.red, l2 + d.green + l2 + d.blue + l3 + id1 + l4 + id2 + l5);
    assert(s =~= (l1 + d.red) + l2 + (d.green + l2 + d.blue + l3 + id1 + l4 + id2 + l5));
    lemma_concat_middle(l1 + d.red, l2, d.green + l2 + d.blue + l3 + id1 + l4 + id2 + l5);
    assert(s =~= (l1 + d.red + l2) + d.green + (l2 + d.blue + l3 + id1 + l4 + id2 + l5));
    lemma_concat_middle(l1 + d.red + l2, d.green, l2 + d.blue + l3 + id1 + l4 + id2 + l5);
    assert(s =~= (l1 + d.red + l2 + d.green) + l2 + (d.blue + l3 + id1 + l4 + id2 + l5));
    lemma_concat_middle(l1 + d.red + l2 + d.green, l2, d.blue + l3 + id1 + l4 + id2 + l5);
    assert(s =~= (l1 + d.red + l2 + d.green + l2) + d.blue + (l3 + id1 + l4 + id2 + l5));
    lemma_concat_middle(l1 + d.red + l2 + d.green + l2, d.blue, l3 + id1 + l4 + id2 + l5);
    assert(s =~= (l1 + d.red + l2 + d.green + l2 + d.blue) + l3 + (id1 + l4 + id2 + l5));
    lemma_concat_middle(l1 + d.red + l2 + d.green + l2 + d.blue, l3, id1 + l4 + id2 + l5);
    assert(s =~= (l1 + d.red + l2 + d.green + l2 + d.blue + l3) + id1 + (l4 + id2 + l5));
    lemma_concat_middle(l1 + d.red + l2 + d.green + l2 + d.blue + l3, id1, l4 + id2 + l5);
    assert(s =~= (l1 + d.red + l2 + d.green + l2 + d.blue + l3 + id1) + l4 + (id2 + l5));
    lemma_concat_middle(l1 + d.red + l2 + d.green + l2 + d.blue + l3 + id1, l4, id2 + l5);
    assert(s =~= (l1 + d.red + l2 + d.green + l2 + d.blue + l3 + id1 + l4) + id2 + (l5));
    lemma_concat_middle(l1 + d.red + l2 + d.green + l2 + d.blue + l3 + id1 + l4, id2, l5);
    assert(s =~= (l1 + d.red + l2 + d.green + l2 + d.blue + l3 + id1 + l4 + id2) + l5 + (
    Seq::<char>::empty()));
    lemma_concat_middle(l1 + d.red + l2 + d.green + l2 + d.blue + l3 + id1 + l4 + id2, l5,
        Seq::<char>::empty());

    assert(s.subrange(0, i1) =~= l1);
    assert(s.subrange(i1, j1) =~= d.red);
    assert(s.subrange(j1, j1 + l2.len()) =~= l2);
    assert(s.subrange(i2, j2) =~= d.green);
    assert(s.subrange(j2, j2 + l2.len()) =~= l2);
    assert(s.subrange(i3, j3) =~= d.blue);
    assert(s.subrange(j3, j3 + l3.len()) =~= l3);
    assert(s.subrange(i4, j4) =~= id1);
    assert(s.subrange(j4, j4 + l4.len()) =~= l4);
    assert(s.subrange(i5, j5) =~= id2);
    assert(s.subrange(j5, j5 + l5.len()) =~= l5);
    assert(j5 + l5.len() == s.len());

    // Every token region is line-break free and each separator starts
    // with the line break the scan stops on.
    assert forall|k: int| i1 <= k < j1 implies s[k] != '\n' by {
        assert(s[k] == s.subrange(i1, j1)[k - i1]);
    }
    assert(s[j1] == s.subrange(j1, j1 + l2.len())[0]);
    lemma_find_newline_at(s, i1, j1);
    assert forall|k: int| i2 <= k < j2 implies s[k] != '\n' by {
        assert(s[k] == s.subrange(i2, j2)[k - i2]);
    }
    assert(s[j2] == s.subrange(j2, j2 + l2.len())[0]);
    lemma_find_newline_at(s, i2, j2);
    assert forall|k: int| i3 <= k < j3 implies s[k] != '\n' by {
        assert(s[k] == s.subrange(i3, j3)[k - i3]);
    }
    assert(s[j3] == s.subrange(j3, j3 + l3.len())[0]);
    lemma_find_newline_at(s, i3, j3);
    assert forall|k: int| i4 <= k < j4 implies s[k] != '\n' by {
        assert(s[k] == s.subrange(i4, j4)[k - i4]);
        assert(token_wf(id1));
    }
    assert(s[j4] == s.subrange(j4, j4 + l4.len())[0]);
    lemma_find_newline_at(s, i4, j4);
    assert forall|k: int| i5 <= k < j5 implies s[k] != '\n' by {
        assert(s[k] == s.subrange(i5, j5)[k - i5]);
        assert(token_wf(id2));
    }
    assert(s[j5] == s.subrange(j5, j5 + l5.len())[0]);
    lemma_find_newline_at(s, i5, j5);

    assert(parse_doc(s) == Some(d));
}

/// The number a digit sequence denotes is no less than the number any
/// prefix denotes.
proof fn lemma_dec_value_prefix(s: Seq<char>, k: int)
    requires
        0 <= k <= s.len(),
    ensures
        dec_value(s) >= dec_value(s.take(k)),
    decreases s.len() - k,
{
    if k < s.len() {
        lemma_dec_value_prefix(s, k + 1);
        assert(s.take(k + 1).drop_last() =~= s.take(k));
        let v = dec_value(s.take(k));
        assert(v * 10 + digit_val(s.take(k + 1).last()) >= v) by (nonlinear_arith);
    } else {
        assert(s.take(k) =~= s);
    }
}

/// True when `lit` occurs in `s` at character position `i`.
fn match_at(s: &str, i: usize, lit: &str) -> (r: bool)
    requires
        i <= s@.len(),
    ensures
        r == starts_with(s@, i as int, lit@),
{
    let sn = s.unicode_len();
    let n = lit.unicode_len();
    if n > sn - i {
        return false;
    }
    let mut k: usize = 0;
    while k < n
        invariant
            k <= n,
            n == lit@.len(),
            sn == s@.len(),
            i + n <= sn,
            forall|t: int| 0 <= t < k ==> s@[i + t] == lit@[t],
        decreases n - k,
    {
        if s.get_char(i + k) != lit.get_char(k) {
            proof {
                assert(s@.subrange(i as int, i + lit@.len())[k as int] != lit@[k as int]);
            }
            return false;
        }
        k = k + 1;
    }
    proof {
        assert(s@.subrange(i as int, i + lit@.len()) =~= lit@);
    }
    true
}

/// The character position of the first line break at or after `i`.
fn find_newline_exec(s: &str, i: usize) -> (j: usize)
    requires
        i <= s@.len(),
    ensures
        j == find_newline(s@, i as int),
        i <= j <= s@.len(),
        j < s@.len() ==> s@[j as int] == '\n',
    decreases s@.len() - i,
{
    let n = s.unicode_len();
    let mut j = i;
    while j < n
        invariant
            i <= j <= n,
            n == s@.len(),
            find_newline(s@, i as int) == find_newline(s@, j as int),
        decreases n - j,
    {
        if s.get_char(j) == '\n' {
            return j;
        }
        j = j + 1;
    }
    j
}

/// What a texture id region denotes, executably: exactly `parse_id`.
fn parse_id_exec(t: &str) -> (r: Option<Option<u64>>)
    ensures
        r == parse_id(t@),
{
    proof {
        reveal_strlit("null");
    }
    let n = t.unicode_len();
    if n == 4 && match_at(t, 0, "null") {
        proof {
            assert(t@.subrange(0, 4) =~= t@);
        }
        return Some(None);
    }
    proof {
        if t@ == "null"@ {
            assert(t@.subrange(0, 4) =~= "null"@);
        }
    }
    if n == 0 {
        return None;
    }
    let mut val: u64 = 0;
    let mut k: usize = 0;
    while k < n
        invariant
            k <= n,
            1 <= n,
            n == t@.len(),
            t@ != "null"@,
            all_digits(t@.take(k as int)),
            val == dec_value(t@.take(k as int)),
        decreases n - k,
    {
        let c = t.get_char(k);
        let u = c as u32;
        if u < 48 || u > 57 {
            proof {
                assert(!is_digit(t@[k as int]));
                assert(!all_digits(t@));
            }
            return None;
        }
        let d = (u - 48) as u64;
        let limit = (u64::MAX - d) / 10;
        proof {
            assert(t@.take(k as int + 1).drop_last() =~= t@.take(k as int));
            assert(t@.take(k as int + 1).last() == t@[k as int]);
            assert(digit_val(t@[k as int]) == d);
        }
        if val > limit {
            proof {
                assert(val * 10 + d > u64::MAX) by (nonlinear_arith)
                    requires
                        val > (u64::MAX - d) as int / 10,
                        0 <= d <= 9,
                        val <= u64::MAX,
                ;
                lemma_dec_value_prefix(t@, k as int + 1);
                assert(dec_value(t@.take(k as int + 1)) > u64::MAX);
                assert(dec_value(t@) > u64::MAX);
            }
            return None;
        }
        proof {
            assert(val * 10 + d <= u64::MAX) by (nonlinear_arith)
                requires
                    val <= (u64::MAX - d) as int / 10,
                    0 <= d <= 9,
            ;
        }
        val = val * 10 + d;
        k = k + 1;
        proof {
            assert forall|i: int| 0 <= i < k implies is_digit(#[trigger] t@.take(k as int)[i]) by {
                if i < k - 1 {
                    assert(t@.take(k as int)[i] == t@.take(k as int - 1)[i]);
                }
            }
        }
    }
    proof {
        assert(t@.take(n as int) =~= t@);
    }
    Some(Some(val))
}

/// Parses a document text, strictly: succeeds exactly on the texts
/// `encode` produces, with exactly the fields they were produced from
/// (`parse_doc` pins both down).
pub fn parse(s: &str) -> (r: Option<MaterialDoc>)
    ensures
        match r {
            Some(d) => parse_doc(s@) == Some(d@),
            None => parse_doc(s@) is None,
        },
{
    let sn = s.unicode_len();
    if !match_at(s, 0, "diffuse:\n- ") {
        return None;
    }
    let i1 = "diffuse:\n- ".unicode_len();
    let j1 = find_newline_exec(s, i1);
    if j1 == i1 || !match_at(s, j1, "\n- ") {
        return None;
    }
    let red = s.substring_char(i1, j1).to_owned();
    let i2 = j1 + "\n- ".unicode_len();
    let j2 = find_newline_exec(s, i2);
    if j2 == i2 || !match_at(s, j2, "\n- ") {
        return None;
    }
    let green = s.substring_char(i2, j2).to_owned();
    let i3 = j2 + "\n- ".unicode_len();
    let j3 = find_newline_exec(s, i3);
    if j3 == i3 || !match_at(s, j3, "\ndiffuse_texture:\n  id: ") {
        return None;
    }
    let blue = s.substring_char(i3, j3).to_owned();
    let i4 = j3 + "\ndiffuse_texture:\n  id: ".unicode_len();
    let j4 = find_newline_exec(s, i4);
    let diffuse_texture = match parse_id_exec(s.substring_char(i4, j4)) {
        Some(v) => v,
        None => {
            return None;
        },
    };
    if !match_at(s, j4, "\nnormal_texture:\n  id: ") {
        return None;
    }
    let i5 = j4 + "\nnormal_texture:\n  id: ".unicode_len();
    let j5 = find_newline_exec(s, i5);
    let normal_texture = match parse_id_exec(s.substring_char(i5, j5)) {
        Some(v) => v,
        None => {
            return None;
        },
    };
    if !match_at(s, j5, "\n") {
        return None;
    }
    if j5 + "\n".unicode_len() != sn {
        return None;
    }
    Some(MaterialDoc { red, green, blue, diffuse_texture, normal_texture })
}

} // verus!
