//! Text pieces that output names are built from: the split of a file name into
//! stem and extension, and the decimal form of a number.

use vstd::prelude::*;
use crate::paths::opt_view;

verus! {

/// The position of the last `.` in `name`, if any.
pub open spec fn last_dot(name: Seq<char>) -> Option<int>
    decreases name.len(),
{
    if name.len() == 0 {
        None
    } else if name.last() == '.' {
        Some(name.len() - 1)
    } else {
        last_dot(name.drop_last())
    }
}

/// The split of a file name into stem and extension: the extension is what
/// follows the last `.`, unless there is no `.`, the only `.`s lead the name
/// in the sense that the last one is its first character, or the name is `..`;
/// then the whole name is the stem and there is no extension.
pub open spec fn split_name(name: Seq<char>) -> (Seq<char>, Option<Seq<char>>) {
    if name =~= seq!['.', '.'] {
        (name, None)
    } else {
        match last_dot(name) {
            None => (name, None),
            Some(i) => if i == 0 {
                (name, None)
            } else {
                (name.take(i), Some(name.skip(i + 1)))
            },
        }
    }
}

pub(crate) proof fn lemma_last_dot(name: Seq<char>)
    ensures
        match last_dot(name) {
            Some(i) => 0 <= i < name.len() && name[i] == '.' && forall|j: int|
                i < j < name.len() ==> name[j] != '.',
            None => forall|j: int| 0 <= j < name.len() ==> name[j] != '.',
        },
    decreases name.len(),
{
    if name.len() > 0 && name.last() != '.' {
        let prefix = name.drop_last();
        lemma_last_dot(prefix);
        assert forall|j: int| 0 <= j < prefix.len() implies prefix[j] == name[j] by {}
    }
}

/// Splits a file name into its stem and its extension, as `split_name` says.
pub fn split_file_name(name: &str) -> (parts: (String, Option<String>))
    ensures
        parts.0@ == split_name(name@).0,
        opt_view(parts.1) == split_name(name@).1,
{
    let n = name.unicode_len();
    let mut i: usize = n;
    while i > 0 && name.get_char(i - 1) != '.'
        invariant
            i <= n,
            n == name@.len(),
            forall|j: int| i <= j < n ==> name@[j] != '.',
        decreases i,
    {
        i = i - 1;
    }
    proof {
        lemma_last_dot(name@);
        assert(i > 0 ==> name@[i - 1] == '.');
        assert(last_dot(name@) == if i == 0 { None::<int> } else { Some(i - 1) }) by {
            if i > 0 {
                let k = last_dot(name@);
                if k is None {
                    assert(name@[i - 1] != '.');
                } else {
                    let kk = k->0;
                    if kk < i - 1 {
                        assert(name@[i - 1] != '.');
                    }
                }
            } else {
                if last_dot(name@) is Some {
                    let kk = last_dot(name@)->0;
                    assert(name@[kk] != '.');
                }
            }
        }
    }
    let is_parent_dir = n == 2 && name.get_char(0) == '.' && name.get_char(1) == '.';
    if is_parent_dir || i <= 1 {
        proof {
            if is_parent_dir {
                assert(name@ =~= seq!['.', '.']);
            }
        }
        (String::from_str(name), None)
    } else {
        let stem = name.substring_char(0, i - 1);
        let ext = name.substring_char(i, n);
        proof {
            assert(!(name@ =~= seq!['.', '.'])) by {
                if name@ =~= seq!['.', '.'] {
                    assert(name@.len() == 2);
                    assert(name@[0] == '.' && name@[1] == '.');
                }
            }
            assert(stem@ =~= name@.take(i - 1));
            assert(ext@ =~= name@.skip(i as int));
        }
        (String::from_str(stem), Some(String::from_str(ext)))
    }
}

/// The extension split off a file name holds no `.`.
pub proof fn lemma_split_extension_has_no_dot(name: Seq<char>)
    ensures
        split_name(name).1 matches Some(ext) ==> !ext.contains('.'),
{
    lemma_last_dot(name);
    if let Some(ext) = split_name(name).1 {
        let i = last_dot(name).unwrap();
        if ext.contains('.') {
            let j = choose|j: int| 0 <= j < ext.len() && ext[j] == '.';
            assert(name[i + 1 + j] == '.');
        }
    }
}

/// The character of a decimal digit.
pub open spec fn digit_char(d: nat) -> char {
    if d == 0 { '0' }
    else if d == 1 { '1' }
    else if d == 2 { '2' }
    else if d == 3 { '3' }
    else if d == 4 { '4' }
    else if d == 5 { '5' }
    else if d == 6 { '6' }
    else if d == 7 { '7' }
    else if d == 8 { '8' }
    else { '9' }
}

/// The decimal form of `n`, without leading zeros (as `{}` formats an integer).
pub open spec fn decimal(n: nat) -> Seq<char>
    decreases n,
{
    if n < 10 {
        seq![digit_char(n)]
    } else {
        decimal(n / 10) + seq![digit_char(n % 10)]
    }
}

proof fn lemma_decimal_len(n: nat)
    ensures
        decimal(n).len() >= 1,
        n >= 10 ==> decimal(n).len() >= 2,
    decreases n,
{
    if n >= 10 {
        lemma_decimal_len(n / 10);
    }
}

/// The decimal form of a number holds no `.`.
pub proof fn lemma_decimal_has_no_dot(n: nat)
    ensures
        !decimal(n).contains('.'),
    decreases n,
{
    if n >= 10 {
        lemma_decimal_has_no_dot(n / 10);
        let d = decimal(n);
        if d.contains('.') {
            let i = choose|i: int| 0 <= i < d.len() && d[i] == '.';
            if i < d.len() - 1 {
                assert(decimal(n / 10)[i] == '.');
            }
        }
    } else {
        if decimal(n).contains('.') {
            let i = choose|i: int| 0 <= i < decimal(n).len() && decimal(n)[i] == '.';
            assert(i == 0);
        }
    }
}

/// Distinct numbers have distinct decimal forms.
pub proof fn lemma_decimal_injective(a: nat, b: nat)
    requires
        decimal(a) == decimal(b),
    ensures
        a == b,
    decreases a,
{
    lemma_decimal_len(a);
    lemma_decimal_len(b);
    if a < 10 && b < 10 {
        assert(decimal(a)[0] == digit_char(a));
        assert(decimal(b)[0] == digit_char(b));
    } else if a >= 10 && b >= 10 {
        let da = decimal(a);
        let db = decimal(b);
        assert(da.last() == digit_char(a % 10));
        assert(db.last() == digit_char(b % 10));
        assert(da.drop_last() =~= decimal(a / 10));
        assert(db.drop_last() =~= decimal(b / 10));
        lemma_decimal_injective(a / 10, b / 10);
    }
}

/// The decimal form of `n`.
pub fn decimal_string(n: u64) -> (s: String)
    ensures
        s@ == decimal(n as nat),
    decreases n,
{
    let digits = "0123456789";
    proof {
        reveal_strlit("0123456789");
    }
    let d = (n % 10) as usize;
    let last = digits.substring_char(d, d + 1);
    proof {
        assert(last@ =~= seq![digit_char(d as nat)]);
    }
    if n < 10 {
        String::from_str(last)
    } else {
        let mut s = decimal_string(n / 10);
        s.append(last);
        s
    }
}

/// The six decimal digits of `f` (below a million), with leading zeros.
pub open spec fn six_digits(f: nat) -> Seq<char> {
    seq![
        digit_char((f / 100000) % 10),
        digit_char((f / 10000) % 10),
        digit_char((f / 1000) % 10),
        digit_char((f / 100) % 10),
        digit_char((f / 10) % 10),
        digit_char(f % 10),
    ]
}

/// `s` without its trailing `0`s.
pub open spec fn strip_trailing_zeros(s: Seq<char>) -> Seq<char>
    decreases s.len(),
{
    if s.len() > 0 && s.last() == '0' {
        strip_trailing_zeros(s.drop_last())
    } else {
        s
    }
}

/// A number of microseconds written in seconds, as `{}` writes the number of
/// seconds: the whole seconds, then, where there is a fraction, a `.` and its
/// digits without trailing zeros (`40`, `12.5`, `0.000001`).
pub open spec fn seconds_text(micros: nat) -> Seq<char> {
    let whole = decimal(micros / 1000000);
    let fraction = micros % 1000000;
    if fraction == 0 {
        whole
    } else {
        whole + "."@ + strip_trailing_zeros(six_digits(fraction))
    }
}

/// A whole number of seconds is written as its decimal form.
pub proof fn lemma_seconds_text_whole(seconds: nat)
    ensures
        seconds_text(seconds * 1000000) == decimal(seconds),
{
    assert((seconds * 1000000) / 1000000 == seconds && (seconds * 1000000) % 1000000 == 0)
        by (nonlinear_arith);
}

/// The decimal digit `d` as text.
fn digit_string(d: u64) -> (s: String)
    requires
        d < 10,
    ensures
        s@ == seq![digit_char(d as nat)],
{
    let digits = "0123456789";
    proof {
        reveal_strlit("0123456789");
    }
    let i = d as usize;
    let one = digits.substring_char(i, i + 1);
    proof {
        assert(one@ =~= seq![digit_char(d as nat)]);
    }
    String::from_str(one)
}

/// Write a number of microseconds in seconds, as `seconds_text` says.
pub fn seconds_string(micros: u64) -> (s: String)
    ensures
        s@ == seconds_text(micros as nat),
{
    let mut text = decimal_string(micros / 1000000);
    let fraction = micros % 1000000;
    if fraction == 0 {
        return text;
    }
    let mut six = digit_string((fraction / 100000) % 10);
    let d = digit_string((fraction / 10000) % 10);
    six.append(d.as_str());
    let d = digit_string((fraction / 1000) % 10);
    six.append(d.as_str());
    let d = digit_string((fraction / 100) % 10);
    six.append(d.as_str());
    let d = digit_string((fraction / 10) % 10);
    six.append(d.as_str());
    let d = digit_string(fraction % 10);
    six.append(d.as_str());
    let ghost full = six_digits(fraction as nat);
    assert(six@ =~= full);
    assert(full.take(6) =~= full);
    let mut end: usize = 6;
    while end > 0 && six.as_str().get_char(end - 1) == '0'
        invariant
            end <= 6,
            six@ == full,
            full.len() == 6,
            strip_trailing_zeros(full.take(end as int)) == strip_trailing_zeros(full),
        decreases end,
    {
        proof {
            assert(full.take(end as int).drop_last() =~= full.take(end - 1));
            assert(full.take(end as int).last() == full[end - 1]);
        }
        end = end - 1;
    }
    proof {
        if end > 0 {
            assert(full.take(end as int).last() == full[end - 1]);
        } else {
            assert(full.take(0) =~= Seq::<char>::empty());
        }
    }
    let kept = six.as_str().substring_char(0, end);
    proof {
        assert(kept@ =~= full.take(end as int));
    }
    text.append(".");
    text.append(kept);
    text
}

} // verus!
