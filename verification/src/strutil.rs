use vstd::prelude::*;
use vstd::string::StrSliceExecFns;
use vstd::string::StringExecFns;
use vstd::utf8::encode_utf8;
use vstd::utf8::valid_utf8;

verus! {

/// Splits a character sequence at every occurrence of `sep`.
/// The separator itself is dropped; an empty input yields one empty piece,
/// and `n` separators always yield `n + 1` pieces.
pub open spec fn split_chars(s: Seq<char>, sep: char) -> Seq<Seq<char>>
    decreases s.len(),
{
    if s.len() == 0 {
        seq![Seq::<char>::empty()]
    } else if s[0] == sep {
        seq![Seq::<char>::empty()] + split_chars(s.drop_first(), sep)
    } else {
        let rest = split_chars(s.drop_first(), sep);
        seq![seq![s[0]] + rest[0]] + rest.drop_first()
    }
}

pub proof fn lemma_split_chars_len(s: Seq<char>, sep: char)
    ensures
        split_chars(s, sep).len() >= 1,
    decreases s.len(),
{
    if s.len() != 0 {
        lemma_split_chars_len(s.drop_first(), sep);
    }
}

/// No piece of a split contains the separator it was split on.
pub proof fn lemma_split_chars_no_sep(s: Seq<char>, sep: char)
    ensures
        forall|j: int, k: int|
            0 <= j < split_chars(s, sep).len() && 0 <= k < split_chars(s, sep)[j].len()
                ==> #[trigger] split_chars(s, sep)[j][k] != sep,
    decreases s.len(),
{
    if s.len() == 0 {
    } else {
        lemma_split_chars_no_sep(s.drop_first(), sep);
        let rest = split_chars(s.drop_first(), sep);
        lemma_split_chars_len(s.drop_first(), sep);
        if s[0] == sep {
            assert(forall|j: int, k: int|
                0 <= j < split_chars(s, sep).len() && 0 <= k < split_chars(s, sep)[j].len()
                    ==> #[trigger] split_chars(s, sep)[j][k] == rest[j - 1][k]);
        } else {
            assert(split_chars(s, sep)[0] == seq![s[0]] + rest[0]);
            assert(forall|k: int| 0 < k < split_chars(s, sep)[0].len()
                ==> #[trigger] split_chars(s, sep)[0][k] == rest[0][k - 1]);
            assert(forall|j: int, k: int|
                1 <= j < split_chars(s, sep).len() && 0 <= k < split_chars(s, sep)[j].len()
                    ==> #[trigger] split_chars(s, sep)[j][k] == rest[j][k]);
        }
    }
}

/// Relies on String::push: appends exactly one character at the end.
#[verifier::external_body]
pub(crate) fn push_char(s: &mut String, c: char)
    ensures
        final(s)@ == old(s)@ + seq![c],
{
    s.push(c);
}

/// Relies on String::from_utf8: succeeds exactly on valid UTF-8 input and
/// returns the string those bytes encode.
#[verifier::external_body]
pub(crate) fn string_from_utf8(b: Vec<u8>) -> (r: Option<String>)
    ensures
        r is Some <==> valid_utf8(b@),
        r matches Some(s) ==> encode_utf8(s@) == b@,
{
    match String::from_utf8(b) {
        Ok(s) => Some(s),
        Err(_) => None,
    }
}

/// Splits `s` at every occurrence of `sep`, per `split_chars`.
pub fn split_str(s: &str, sep: char) -> (r: Vec<String>)
    ensures
        r@.map_values(|t: String| t@) == split_chars(s@, sep),
{
    let n = s.unicode_len();
    let mut done: Vec<String> = Vec::new();
    let mut cur = String::new();
    proof {
        lemma_split_chars_len(s@, sep);
        assert(s@.skip(0) == s@);
    }
    for i in 0..n
        invariant
            n == s@.len(),
            split_chars(s@, sep) =~= done@.map_values(|t: String| t@) + seq![
                cur@ + split_chars(s@.skip(i as int), sep)[0],
            ] + split_chars(s@.skip(i as int), sep).drop_first(),
    {
        let c = s.get_char(i);
        let ghost prev_done = done@;
        let ghost prev_cur = cur@;
        proof {
            assert(s@.skip(i as int).len() > 0);
            assert(s@.skip(i as int)[0] == s@[i as int]);
            assert(s@.skip(i as int).drop_first() =~= s@.skip(i + 1));
            lemma_split_chars_len(s@.skip(i + 1), sep);
        }
        if c == sep {
            done.push(cur);
            cur = String::new();
            proof {
                let rest = split_chars(s@.skip(i + 1), sep);
                assert(split_chars(s@.skip(i as int), sep) =~= seq![Seq::<char>::empty()]
                    + rest);
                assert(done@.map_values(|t: String| t@) =~= prev_done.map_values(
                    |t: String| t@,
                ).push(prev_cur));
                assert(rest =~= seq![rest[0]] + rest.drop_first());
                assert(split_chars(s@, sep) =~= done@.map_values(|t: String| t@) + seq![
                    cur@ + rest[0],
                ] + rest.drop_first());
            }
        } else {
            push_char(&mut cur, c);
            proof {
                let rest = split_chars(s@.skip(i + 1), sep);
                assert(split_chars(s@.skip(i as int), sep) =~= seq![
                    seq![c] + rest[0],
                ] + rest.drop_first());
                assert(cur@ + rest[0] =~= prev_cur + (seq![c] + rest[0]));
                assert(split_chars(s@, sep) =~= done@.map_values(|t: String| t@) + seq![
                    cur@ + rest[0],
                ] + rest.drop_first());
            }
        }
    }
    proof {
        assert(s@.skip(n as int) =~= Seq::<char>::empty());
    }
    done.push(cur);
    proof {
        assert(done@.map_values(|t: String| t@) =~= split_chars(s@, sep));
    }
    done
}

/// Character sequence of the decimal representation of `n`, without sign
/// or leading zeros (zero itself is "0").
pub open spec fn dec_chars(n: nat) -> Seq<char>
    decreases n,
{
    if n < 10 {
        seq![((48 + n) as u8) as char]
    } else {
        dec_chars(n / 10).push(((48 + n % 10) as u8) as char)
    }
}

/// Appends the decimal representation of `n` to `out`.
pub fn push_dec(n: u64, out: &mut String)
    ensures
        final(out)@ == old(out)@ + dec_chars(n as nat),
    decreases n,
{
    if n >= 10 {
        push_dec(n / 10, out);
    }
    push_char(out, (48 + (n % 10) as u8) as char);
}

/// True when `s` begins with `prefix`.
pub open spec fn starts_with(s: Seq<char>, prefix: Seq<char>) -> bool {
    s.len() >= prefix.len() && s.take(prefix.len() as int) == prefix
}

pub fn str_starts_with(s: &str, prefix: &str) -> (r: bool)
    ensures
        r == starts_with(s@, prefix@),
{
    let n = s.unicode_len();
    let p = prefix.unicode_len();
    if n < p {
        proof {
            assert(!starts_with(s@, prefix@));
        }
        return false;
    }
    for i in 0..p
        invariant
            n == s@.len(),
            p == prefix@.len(),
            n >= p,
            forall|j: int| 0 <= j < i ==> s@[j] == prefix@[j],
    {
        if s.get_char(i) != prefix.get_char(i) {
            proof {
                assert(s@.take(p as int)[i as int] != prefix@[i as int]);
            }
            return false;
        }
    }
    proof {
        assert(s@.take(p as int) =~= prefix@);
    }
    true
}

/// True exactly when the two strings hold the same characters.
pub fn str_eq(a: &str, b: &str) -> (r: bool)
    ensures
        r == (a@ == b@),
{
    let n = a.unicode_len();
    if n != b.unicode_len() {
        return false;
    }
    if str_starts_with(a, b) {
        proof {
            assert(a@.take(b@.len() as int) =~= a@);
        }
        true
    } else {
        proof {
            assert(a@ == b@ ==> a@.take(b@.len() as int) == b@);
        }
        false
    }
}

} // verus!
