use vstd::prelude::*;

verus! {

broadcast use vstd::string::axiom_spec_iter;

/// The characters of `s`, in order.
pub fn chars_of(s: &str) -> (r: Vec<char>)
    ensures
        r@ == s@,
{
    let mut out: Vec<char> = Vec::new();
    for c in it: s.chars()
        invariant
            it.seq() == s@,
            out@ == s@.take(it.index() as int),
    {
        out.push(c);
    }
    proof {
        assert(out@ =~= s@);
    }
    out
}

/// `c` is an ASCII decimal digit.
pub open spec fn is_digit(c: char) -> bool {
    '0' <= c && c <= '9'
}

/// `c` is a blank: space, tab, line feed or carriage return.
pub open spec fn is_blank(c: char) -> bool {
    c == ' ' || c == '\t' || c == '\n' || c == '\r'
}

/// The `len` characters of `s` from position `i` are digits.
pub open spec fn all_digits(s: Seq<char>, i: int, len: int) -> bool {
    &&& 0 <= i
    &&& 0 <= len
    &&& i + len <= s.len()
    &&& forall|k: int| i <= k < i + len ==> is_digit(#[trigger] s[k])
}

/// The decimal number written by the `len` characters of `s` from `i`.
pub open spec fn number_at(s: Seq<char>, i: int, len: nat) -> int
    decreases len,
{
    if len == 0 {
        0
    } else {
        number_at(s, i, (len - 1) as nat) * 10 + (s[i + len - 1] as u32 - '0' as u32)
    }
}

pub open spec fn pow10(k: nat) -> int
    decreases k,
{
    if k == 0 {
        1
    } else {
        10 * pow10((k - 1) as nat)
    }
}

/// The decimal number written by `len` (at most eighteen) digits of `cs` from
/// `i`, or `None` when one of them is not a digit or they run past the end.
pub fn read_number(cs: &Vec<char>, i: usize, len: usize) -> (r: Option<i64>)
    requires
        len <= 18,
    ensures
        r == if all_digits(cs@, i as int, len as int) {
            Some(number_at(cs@, i as int, len as nat) as i64)
        } else {
            None::<i64>
        },
        all_digits(cs@, i as int, len as int) ==> 0 <= number_at(cs@, i as int, len as nat) < pow10(
            len as nat,
        ),
{
    if i > cs.len() || len > cs.len() - i {
        return None;
    }
    let n = cs.len();
    let mut acc: i64 = 0;
    let mut k: usize = 0;
    while k < len
        invariant
            n == cs@.len(),
            k <= len <= 18,
            i as int + len as int <= cs@.len(),
            forall|j: int| i <= j < i + k ==> is_digit(#[trigger] cs@[j]),
            acc == number_at(cs@, i as int, k as nat),
            0 <= acc < pow10(k as nat),
            pow10(k as nat) <= 1_000_000_000_000_000_000,
        decreases len - k,
    {
        let c = cs[i + k];
        if c < '0' || c > '9' {
            return None;
        }
        proof {
            assert(pow10((k + 1) as nat) == 10 * pow10(k as nat));
            lemma_pow10_values();
            lemma_pow10_mono((k + 1) as nat, 18);
        }
        acc = acc * 10 + (c as u32 - '0' as u32) as i64;
        k = k + 1;
    }
    Some(acc)
}

/// Powers of ten that bound the numbers of two, four and eighteen digits.
pub proof fn lemma_pow10_values()
    ensures
        pow10(2) == 100,
        pow10(4) == 10000,
        pow10(18) == 1_000_000_000_000_000_000,
{
    assert(pow10(0) == 1);
    assert(pow10(1) == 10);
    assert(pow10(2) == 100);
    assert(pow10(3) == 1000);
    assert(pow10(4) == 10000);
    assert(pow10(5) == 100000);
    assert(pow10(6) == 1000000);
    assert(pow10(7) == 10000000);
    assert(pow10(8) == 100000000);
    assert(pow10(9) == 1000000000);
    assert(pow10(10) == 10000000000);
    assert(pow10(11) == 100000000000);
    assert(pow10(12) == 1000000000000);
    assert(pow10(13) == 10000000000000);
    assert(pow10(14) == 100000000000000);
    assert(pow10(15) == 1000000000000000);
    assert(pow10(16) == 10000000000000000);
    assert(pow10(17) == 100000000000000000);
    assert(pow10(18) == 1000000000000000000);
}

proof fn lemma_pow10_mono(a: nat, b: nat)
    requires
        a <= b,
    ensures
        pow10(a) <= pow10(b),
        pow10(a) >= 1,
    decreases b,
{
    if a < b {
        lemma_pow10_mono(a, (b - 1) as nat);
    } else if a > 0 {
        lemma_pow10_mono((a - 1) as nat, (a - 1) as nat);
    }
}

/// `cs` and `word` hold the same characters.
pub fn same_chars(cs: &Vec<char>, word: &Vec<char>) -> (r: bool)
    ensures
        r == (cs@ == word@),
{
    if cs.len() != word.len() {
        return false;
    }
    let mut i: usize = 0;
    while i < cs.len()
        invariant
            i <= cs@.len(),
            cs@.len() == word@.len(),
            forall|k: int| 0 <= k < i ==> cs@[k] == word@[k],
        decreases cs@.len() - i,
    {
        if cs[i] != word[i] {
            return false;
        }
        i = i + 1;
    }
    proof {
        assert(cs@ =~= word@);
    }
    true
}

/// Whether some character of `cs` is a blank.
pub fn has_blank(cs: &Vec<char>) -> (r: bool)
    ensures
        r == exists|k: int| 0 <= k < cs@.len() && is_blank(#[trigger] cs@[k]),
{
    let mut i: usize = 0;
    while i < cs.len()
        invariant
            i <= cs@.len(),
            forall|k: int| 0 <= k < i ==> !is_blank(#[trigger] cs@[k]),
        decreases cs@.len() - i,
    {
        let c = cs[i];
        if c == ' ' || c == '\t' || c == '\n' || c == '\r' {
            return true;
        }
        i = i + 1;
    }
    false
}

} // verus!
