use vstd::prelude::*;
use vstd::string::*;

verus! {

/// The character of a decimal digit.
pub open spec fn digit_char(d: nat) -> char {
    if d == 0 { '0' } else if d == 1 { '1' } else if d == 2 { '2' } else if d == 3 { '3' }
    else if d == 4 { '4' } else if d == 5 { '5' } else if d == 6 { '6' } else if d == 7 { '7' }
    else if d == 8 { '8' } else { '9' }
}

/// The decimal rendering of a natural number, without sign or leading zeros.
pub open spec fn decimal(n: nat) -> Seq<char>
    decreases n,
{
    if n < 10 {
        seq![digit_char(n)]
    } else {
        decimal(n / 10).push(digit_char(n % 10))
    }
}

fn digit_str(d: u64) -> (r: &'static str)
    requires
        d < 10,
    ensures
        r@ == seq![digit_char(d as nat)],
{
    if d == 0 {
        proof { reveal_strlit("0"); }
        "0"
    } else if d == 1 {
        proof { reveal_strlit("1"); }
        "1"
    } else if d == 2 {
        proof { reveal_strlit("2"); }
        "2"
    } else if d == 3 {
        proof { reveal_strlit("3"); }
        "3"
    } else if d == 4 {
        proof { reveal_strlit("4"); }
        "4"
    } else if d == 5 {
        proof { reveal_strlit("5"); }
        "5"
    } else if d == 6 {
        proof { reveal_strlit("6"); }
        "6"
    } else if d == 7 {
        proof { reveal_strlit("7"); }
        "7"
    } else if d == 8 {
        proof { reveal_strlit("8"); }
        "8"
    } else {
        proof { reveal_strlit("9"); }
        "9"
    }
}

/// Appends the decimal rendering of `n`.
pub fn push_decimal(s: &mut String, n: u64)
    ensures
        final(s)@ == old(s)@ + decimal(n as nat),
    decreases n,
{
    if n < 10 {
        s.append(digit_str(n));
    } else {
        push_decimal(s, n / 10);
        s.append(digit_str(n % 10));
        assert(decimal(n as nat) == decimal((n / 10) as nat).push(digit_char((n % 10) as nat)));
    }
}

/// Appends a string slice.
pub fn push_str(s: &mut String, t: &str)
    ensures
        final(s)@ == old(s)@ + t@,
{
    s.append(t);
}

/// A new string holding the given text.
pub fn text(t: &str) -> (r: String)
    ensures
        r@ == t@,
{
    String::from_str(t)
}

/// Whether `prefix` starts `s`.
pub open spec fn has_prefix(s: Seq<char>, prefix: Seq<char>) -> bool {
    prefix.len() <= s.len() && s.subrange(0, prefix.len() as int) == prefix
}

/// Whether `s` starts with `prefix`.
pub fn starts_with(s: &str, prefix: &str) -> (r: bool)
    ensures
        r == has_prefix(s@, prefix@),
{
    let n = prefix.unicode_len();
    let m = s.unicode_len();
    if n > m {
        return false;
    }
    let mut i: usize = 0;
    while i < n
        invariant
            n == prefix@.len(),
            m == s@.len(),
            n <= m,
            i <= n,
            forall|j: int| 0 <= j < i ==> s@[j] == prefix@[j],
        decreases n - i,
    {
        if s.get_char(i) != prefix.get_char(i) {
            assert(s@.subrange(0, n as int)[i as int] != prefix@[i as int]);
            return false;
        }
        i = i + 1;
    }
    assert(s@.subrange(0, n as int) =~= prefix@);
    true
}

/// `prefix` followed by the decimal rendering of `n`.
pub fn concat_num(prefix: &str, n: u64) -> (r: String)
    ensures
        r@ == prefix@ + decimal(n as nat),
{
    let mut s = text(prefix);
    push_decimal(&mut s, n);
    s
}

/// `prefix`, `a`, `mid`, `b`: two numbers with text around them.
pub fn concat_num2(prefix: &str, a: u64, mid: &str, b: u64) -> (r: String)
    ensures
        r@ == prefix@ + decimal(a as nat) + mid@ + decimal(b as nat),
{
    let mut s = text(prefix);
    push_decimal(&mut s, a);
    push_str(&mut s, mid);
    push_decimal(&mut s, b);
    s
}

/// Whether an exec result carries exactly the outcome `expected`: success,
/// or an error whose text is the expected message.
pub open spec fn outcome_is(r: Result<(), String>, expected: Result<(), Seq<char>>) -> bool {
    match expected {
        Ok(_) => r is Ok,
        Err(m) => r matches Err(e) && e@ == m,
    }
}

/// Whether two string slices hold the same text.
pub fn str_eq(a: &str, b: &str) -> (r: bool)
    ensures
        r == (a@ == b@),
{
    let n = a.unicode_len();
    if n != b.unicode_len() {
        return false;
    }
    let mut i: usize = 0;
    while i < n
        invariant
            n == a@.len(),
            n == b@.len(),
            i <= n,
            forall|j: int| 0 <= j < i ==> a@[j] == b@[j],
        decreases n - i,
    {
        if a.get_char(i) != b.get_char(i) {
            return false;
        }
        i = i + 1;
    }
    assert(a@ =~= b@);
    true
}

// ----- the first error over rows -----

/// The first error that `check` gives on the rows of `s`, in order.
pub open spec fn first_error<T>(s: Seq<T>, check: spec_fn(T) -> Result<(), Seq<char>>) -> Result<(), Seq<char>>
    decreases s.len(),
{
    if s.len() == 0 {
        Ok(())
    } else {
        match check(s[0]) {
            Err(m) => Err(m),
            Ok(_) => first_error(s.drop_first(), check),
        }
    }
}

/// Past a prefix without error, the next row decides the next prefix.
pub(crate) proof fn lemma_first_error_step<T>(s: Seq<T>, check: spec_fn(T) -> Result<(), Seq<char>>, i: int)
    requires
        0 <= i < s.len(),
        first_error(s.take(i), check) is Ok,
    ensures
        first_error(s.take(i + 1), check) == check(s[i]),
    decreases i,
{
    if i == 0 {
        assert(s.take(1).drop_first() =~= Seq::<T>::empty());
        assert(first_error(s.take(1).drop_first(), check) == Ok::<(), Seq<char>>(()));
        assert(s.take(1)[0] == s[0]);
        match check(s[0]) {
            Err(m) => {},
            Ok(u) => {
                assert(first_error(s.take(1), check) == first_error(s.take(1).drop_first(), check));
            },
        }
    } else {
        let t = s.drop_first();
        assert(s.take(i + 1).drop_first() =~= t.take(i));
        assert(s.take(i).drop_first() =~= t.take(i - 1));
        assert(s.take(i)[0] == s[0] && s.take(i + 1)[0] == s[0]);
        assert(check(s[0]) is Ok);
        lemma_first_error_step(t, check, i - 1);
        assert(t[i - 1] == s[i]);
    }
}

/// An error in a prefix is the error of the whole.
pub(crate) proof fn lemma_first_error_prefix<T>(s: Seq<T>, check: spec_fn(T) -> Result<(), Seq<char>>, i: int)
    requires
        0 <= i <= s.len(),
        first_error(s.take(i), check) is Err,
    ensures
        first_error(s, check) == first_error(s.take(i), check),
    decreases i,
{
    assert(i > 0);
    assert(s.take(i)[0] == s[0]);
    if check(s[0]) is Ok {
        let t = s.drop_first();
        assert(s.take(i).drop_first() =~= t.take(i - 1));
        lemma_first_error_prefix(t, check, i - 1);
    }
}

/// The error a row fails with stands for the whole list when every row
/// before it passes.
pub(crate) proof fn lemma_first_error_at<T>(s: Seq<T>, check: spec_fn(T) -> Result<(), Seq<char>>, i: int)
    requires
        0 <= i < s.len(),
        first_error(s.take(i), check) is Ok,
        check(s[i]) is Err,
    ensures
        first_error(s, check) == check(s[i]),
{
    lemma_first_error_step(s, check, i);
    lemma_first_error_prefix(s, check, i + 1);
}

} // verus!
