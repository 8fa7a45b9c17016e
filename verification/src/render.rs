//! Message rendering: template substitution and the small pieces of verified
//! text handling it needs (character extraction, equality, decimal digits).

use vstd::prelude::*;
use vstd::string::StrSliceExecFns;
use vstd::string::StringExecFns;

verus! {

// `String::push` appends one character; vstd does not specify it.
pub assume_specification[ String::push ](s: &mut String, ch: char)
    ensures
        final(s)@ == old(s)@.push(ch),
;

/// The characters of `s`, as a vector.
pub fn chars_of(s: &str) -> (r: Vec<char>)
    ensures
        r@ == s@,
{
    let n = s.unicode_len();
    let mut r: Vec<char> = Vec::new();
    let mut i: usize = 0;
    while i < n
        invariant
            n == s@.len(),
            i <= n,
            r@ == s@.take(i as int),
        decreases n - i,
    {
        let c = s.get_char(i);
        r.push(c);
        proof {
            assert(r@ =~= s@.take(i + 1));
        }
        i += 1;
    }
    proof {
        assert(r@ =~= s@);
    }
    r
}

/// A string built back from a vector of characters.
pub fn string_from_chars(v: &Vec<char>) -> (r: String)
    ensures
        r@ == v@,
{
    let mut r = String::new();
    let mut i: usize = 0;
    while i < v.len()
        invariant
            i <= v@.len(),
            r@ == v@.take(i as int),
        decreases v@.len() - i,
    {
        r.push(v[i]);
        proof {
            assert(r@ =~= v@.take(i + 1));
        }
        i += 1;
    }
    proof {
        assert(r@ =~= v@);
    }
    r
}

/// Character-wise string equality.
pub fn str_eq(a: &str, b: &str) -> (r: bool)
    ensures
        r == (a@ == b@),
{
    let na = a.unicode_len();
    let nb = b.unicode_len();
    if na != nb {
        return false;
    }
    let mut i: usize = 0;
    while i < na
        invariant
            na == a@.len(),
            na == b@.len(),
            i <= na,
            forall|j: int| 0 <= j < i ==> a@[j] == b@[j],
        decreases na - i,
    {
        if a.get_char(i) != b.get_char(i) {
            return false;
        }
        i += 1;
    }
    proof {
        assert(a@ =~= b@);
    }
    true
}

/// Whether `c` is a decimal digit.
pub open spec fn spec_is_digit(c: char) -> bool {
    spec_digit_val(c) >= 0
}

/// The value of a decimal digit, or -1 for any other character.
pub open spec fn spec_digit_val(c: char) -> int {
    if c == '0' {
        0
    } else if c == '1' {
        1
    } else if c == '2' {
        2
    } else if c == '3' {
        3
    } else if c == '4' {
        4
    } else if c == '5' {
        5
    } else if c == '6' {
        6
    } else if c == '7' {
        7
    } else if c == '8' {
        8
    } else if c == '9' {
        9
    } else {
        -1
    }
}

/// Whether the text is all decimal digits.
pub open spec fn spec_all_digits(s: Seq<char>) -> bool {
    forall|i: int| 0 <= i < s.len() ==> spec_is_digit(#[trigger] s[i])
}

/// The number a digit string denotes.
pub open spec fn spec_digits_val(s: Seq<char>) -> int
    decreases s.len(),
{
    if s.len() == 0 {
        0
    } else {
        spec_digits_val(s.take(s.len() - 1)) * 10 + spec_digit_val(s[s.len() - 1])
    }
}

/// The value of a digit character, or nothing for any other character.
pub fn digit_value(c: char) -> (r: Option<u8>)
    ensures
        (match r {
            Some(v) => v < 10 && spec_digit_val(c) == v as int,
            None => !spec_is_digit(c),
        }),
{
    match c {
        '0' => Some(0),
        '1' => Some(1),
        '2' => Some(2),
        '3' => Some(3),
        '4' => Some(4),
        '5' => Some(5),
        '6' => Some(6),
        '7' => Some(7),
        '8' => Some(8),
        '9' => Some(9),
        _ => None,
    }
}

/// The character for one decimal digit.
pub open spec fn digit_char(d: int) -> char
    recommends
        0 <= d < 10,
{
    ((48 + d) as u8) as char
}

/// The decimal digits of a non-negative number, most significant first.
pub open spec fn dec_nat(n: nat) -> Seq<char>
    decreases n,
{
    if n < 10 {
        seq![digit_char(n as int)]
    } else {
        dec_nat(n / 10).push(digit_char((n % 10) as int))
    }
}

/// The decimal rendering of an integer, with a leading minus sign when
/// negative.
pub open spec fn dec_int(i: int) -> Seq<char> {
    if i < 0 {
        seq!['-'] + dec_nat((-i) as nat)
    } else {
        dec_nat(i as nat)
    }
}

fn push_dec_u64(n: u64, out: &mut Vec<char>)
    ensures
        final(out)@ == old(out)@ + dec_nat(n as nat),
    decreases n,
{
    let d: u8 = (n % 10) as u8;
    let c: char = (48 + d) as char;
    if n < 10 {
        out.push(c);
        proof {
            assert(out@ =~= old(out)@ + dec_nat(n as nat));
        }
    } else {
        push_dec_u64(n / 10, out);
        out.push(c);
        proof {
            assert(out@ =~= old(out)@ + dec_nat(n as nat));
        }
    }
}

/// The decimal rendering of `i`, as characters.
pub fn i32_chars(i: i32) -> (r: Vec<char>)
    ensures
        r@ == dec_int(i as int),
{
    let mut out: Vec<char> = Vec::new();
    if i < 0 {
        out.push('-');
        let m: u64 = (-(i as i64)) as u64;
        push_dec_u64(m, &mut out);
        proof {
            assert(out@ =~= dec_int(i as int));
        }
    } else {
        push_dec_u64(i as u64, &mut out);
        proof {
            assert(out@ =~= dec_int(i as int));
        }
    }
    out
}

/// The decimal rendering of `i`, as a string.
pub fn i32_to_string(i: i32) -> (r: String)
    ensures
        r@ == dec_int(i as int),
{
    let v = i32_chars(i);
    string_from_chars(&v)
}

/// Every occurrence of `pat` in `s` replaced by `rep`, scanning left to
/// right without overlap, as `str::replace` does.
pub open spec fn replace_all(s: Seq<char>, pat: Seq<char>, rep: Seq<char>) -> Seq<char>
    decreases s.len(),
{
    if s.len() == 0 {
        Seq::empty()
    } else if 0 < pat.len() <= s.len() && s.take(pat.len() as int) == pat {
        rep + replace_all(s.skip(pat.len() as int), pat, rep)
    } else {
        seq![s[0]] + replace_all(s.skip(1), pat, rep)
    }
}

fn match_at(s: &Vec<char>, i: usize, pat: &Vec<char>) -> (r: bool)
    requires
        i <= s@.len(),
    ensures
        r == (i + pat@.len() <= s@.len() && s@.subrange(i as int, i + pat@.len()) == pat@),
{
    if pat.len() > s.len() - i {
        return false;
    }
    let mut j: usize = 0;
    while j < pat.len()
        invariant
            i + pat@.len() <= s@.len(),
            j <= pat@.len(),
            forall|k: int| 0 <= k < j ==> s@[i + k] == pat@[k],
        decreases pat@.len() - j,
    {
        proof {
            assert(i + j < s.len());
        }
        if s[i + j] != pat[j] {
            proof {
                let sub = s@.subrange(i as int, i + pat@.len());
                assert(sub[j as int] == s@[i + j]);
            }
            return false;
        }
        j += 1;
    }
    proof {
        assert(s@.subrange(i as int, i + pat@.len()) =~= pat@);
    }
    true
}

/// Every occurrence of `pat` in `s` replaced by `rep`. The pattern must
/// not be empty.
pub fn replace_all_vec(s: &Vec<char>, pat: &Vec<char>, rep: &Vec<char>) -> (r: Vec<char>)
    requires
        pat@.len() > 0,
    ensures
        r@ == replace_all(s@, pat@, rep@),
{
    let mut out: Vec<char> = Vec::new();
    let mut i: usize = 0;
    proof {
        assert(s@.skip(0) =~= s@);
        assert(Seq::<char>::empty() + replace_all(s@, pat@, rep@) =~= replace_all(
            s@,
            pat@,
            rep@,
        ));
    }
    while i < s.len()
        invariant
            i <= s@.len(),
            pat@.len() > 0,
            replace_all(s@, pat@, rep@) == out@ + replace_all(s@.skip(i as int), pat@, rep@),
        decreases s@.len() - i,
    {
        let ghost pre = out@;
        if match_at(s, i, pat) {
            out.extend_from_slice(rep.as_slice());
            proof {
                let rest = s@.skip(i as int);
                assert(rest.take(pat@.len() as int) =~= s@.subrange(i as int, i + pat@.len()));
                assert(rest.skip(pat@.len() as int) =~= s@.skip(i + pat@.len()));
                assert(replace_all(rest, pat@, rep@) == rep@ + replace_all(
                    s@.skip(i + pat@.len()),
                    pat@,
                    rep@,
                ));
                assert(out@ + replace_all(s@.skip(i + pat@.len()), pat@, rep@) =~= pre
                    + replace_all(rest, pat@, rep@));
            }
            i += pat.len();
        } else {
            out.push(s[i]);
            proof {
                let rest = s@.skip(i as int);
                assert(rest[0] == s@[i as int]);
                if i + pat@.len() <= s@.len() {
                    assert(rest.take(pat@.len() as int) =~= s@.subrange(i as int, i + pat@.len()));
                }
                assert(rest.skip(1) =~= s@.skip(i + 1));
                assert(replace_all(rest, pat@, rep@) == seq![s@[i as int]] + replace_all(
                    s@.skip(i + 1),
                    pat@,
                    rep@,
                ));
                assert(out@ + replace_all(s@.skip(i + 1), pat@, rep@) =~= pre + replace_all(
                    rest,
                    pat@,
                    rep@,
                ));
            }
            i += 1;
        }
    }
    proof {
        assert(s@.skip(i as int) =~= Seq::<char>::empty());
        assert(out@ =~= replace_all(s@, pat@, rep@));
    }
    out
}

/// A template with every `{title}` replaced by the title, then every `{id}`
/// replaced by the decimal task id.
pub open spec fn render_spec(template: Seq<char>, title: Seq<char>, id: int) -> Seq<char> {
    replace_all(replace_all(template, "{title}"@, title), "{id}"@, dec_int(id))
}

/// Renders a reminder message from a rule template and a task's fields.
/// Substitution is plain text replacement; nothing is escaped.
pub fn render(template: &str, title: &str, id: i32) -> (r: String)
    ensures
        r@ == render_spec(template@, title@, id as int),
{
    proof {
        reveal_strlit("{title}");
        reveal_strlit("{id}");
    }
    let tv = chars_of(template);
    let pat_title = chars_of("{title}");
    let pat_id = chars_of("{id}");
    let title_v = chars_of(title);
    let id_v = i32_chars(id);
    let step1 = replace_all_vec(&tv, &pat_title, &title_v);
    let step2 = replace_all_vec(&step1, &pat_id, &id_v);
    string_from_chars(&step2)
}

} // verus!
