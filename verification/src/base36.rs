//! Room codes: numbers written in base 36 with the symbols `0-9a-z`.

use rand::distributions::{Distribution, Uniform};
use rand::thread_rng;
use vstd::prelude::*;
use vstd::std_specs::iter::IteratorSpec;

verus! {

/// Smallest number that is written with six symbols: 36 to the fifth power.
pub const MIN: u32 = 60_466_176;

/// One more than the largest number that is written with six symbols: 36 to
/// the sixth power.
pub const MAX: u32 = 2_176_782_336;

/// Whether `c` is one of the thirty-six symbols `0-9a-z`.
pub open spec fn is_symbol(c: char) -> bool {
    ('0' <= c && c <= '9') || ('a' <= c && c <= 'z')
}

/// The value of a symbol: `0-9` stand for 0 to 9, `a-z` for 10 to 35. Any
/// other character counts as 0.
pub open spec fn symbol_value(c: char) -> nat {
    if '0' <= c && c <= '9' {
        (c as u32 - '0' as u32) as nat
    } else if 'a' <= c && c <= 'z' {
        (c as u32 - 'a' as u32 + 10) as nat
    } else {
        0
    }
}

/// The symbol that stands for `d`, for `d` below 36.
pub open spec fn symbol(d: nat) -> char {
    if d < 10 {
        ('0' as u32 + d) as char
    } else {
        ('a' as u32 + d - 10) as char
    }
}

/// Whether every character of `s` is a symbol.
pub open spec fn all_symbols(s: Seq<char>) -> bool {
    forall|i: int| 0 <= i < s.len() ==> is_symbol(#[trigger] s[i])
}

/// The number that `s` denotes, most significant symbol first.
pub open spec fn value36(s: Seq<char>) -> nat
    decreases s.len(),
{
    if s.len() == 0 {
        0
    } else {
        value36(s.drop_last()) * 36 + symbol_value(s.last())
    }
}

/// The shortest way to write `n`: no leading zero, and `0` for zero.
pub open spec fn digits36(n: nat) -> Seq<char>
    decreases n,
{
    if n < 36 {
        seq![symbol(n)]
    } else {
        digits36(n / 36).push(symbol(n % 36))
    }
}

/// The executable form of `symbol`.
fn symbol_of(d: u32) -> (c: char)
    requires
        d < 36,
    ensures
        c == symbol(d as nat),
        is_symbol(c),
{
    if d < 10 {
        ('0' as u8 + d as u8) as char
    } else {
        ('a' as u8 + (d as u8 - 10)) as char
    }
}

/// `String::push` of std appends one character to the end of the string.
pub assume_specification[ String::push ](text: &mut String, c: char)
    ensures
        final(text)@ == old(text)@.push(c),
;

/// Appends the shortest way to write `n` to `text`.
fn write_digits(n: u32, text: &mut String)
    ensures
        final(text)@ == old(text)@ + digits36(n as nat),
    decreases n,
{
    if n >= 36 {
        write_digits(n / 36, text);
    }
    text.push(symbol_of(n % 36));
}

/// Writes `n` in base 36, most significant symbol first, without leading
/// zeros; zero is written `0`.
pub fn encode(n: u32) -> (text: String)
    ensures
        text@ == digits36(n as nat),
{
    let mut text = String::new();
    write_digits(n, &mut text);
    text
}

/// What `decode` makes of `s`: the number it denotes, where every character
/// is a symbol and the number fits in 32 bits.
pub open spec fn decoded(s: Seq<char>) -> Option<u32> {
    if all_symbols(s) && value36(s) <= u32::MAX {
        Some(value36(s) as u32)
    } else {
        None
    }
}

/// The executable form of `symbol_value`, which tells symbols from other
/// characters.
fn value_of(c: char) -> (d: Option<u32>)
    ensures
        d is Some <==> is_symbol(c),
        d matches Some(v) ==> v == symbol_value(c) && v < 36,
{
    if '0' <= c && c <= '9' {
        Some(c as u32 - '0' as u32)
    } else if 'a' <= c && c <= 'z' {
        Some(c as u32 - 'a' as u32 + 10)
    } else {
        None
    }
}

/// A longer text denotes no less than its beginning.
pub proof fn lemma_value36_prefix(s: Seq<char>, k: int)
    requires
        0 <= k <= s.len(),
    ensures
        value36(s.take(k)) <= value36(s),
    decreases s.len(),
{
    if k < s.len() {
        lemma_value36_prefix(s.drop_last(), k);
        assert(s.drop_last().take(k) =~= s.take(k));
        assert(value36(s.drop_last()) * 36 >= value36(s.drop_last())) by (nonlinear_arith);
    } else {
        assert(s.take(k) =~= s);
    }
}

/// Reads `s` as a number in base 36, most significant symbol first. `None`
/// where a character is no symbol or the number does not fit in 32 bits.
pub fn decode(s: &str) -> (number: Option<u32>)
    ensures
        number == decoded(s@),
{
    let mut acc: u64 = 0;
    let mut chars = s.chars();
    let ghost mut seen: int = 0;
    loop
        invariant
            0 <= seen <= s@.len(),
            chars.remaining() == s@.skip(seen),
            chars.obeys_prophetic_iter_laws(),
            chars.decrease() is Some,
            all_symbols(s@.take(seen)),
            acc == value36(s@.take(seen)),
            acc <= u32::MAX,
        decreases s@.len() - seen,
    {
        match chars.next() {
            None => {
                proof {
                    assert(s@.take(seen) =~= s@);
                }
                return Some(acc as u32);
            },
            Some(c) => {
                proof {
                    assert(c == s@[seen]);
                    assert(s@.take(seen + 1).drop_last() =~= s@.take(seen));
                    lemma_value36_prefix(s@, seen + 1);
                }
                match value_of(c) {
                    None => {
                        return None;
                    },
                    Some(d) => {
                        let next = acc * 36 + d as u64;
                        if next > u32::MAX as u64 {
                            return None;
                        }
                        acc = next;
                        proof {
                            seen = seen + 1;
                        }
                    },
                }
            },
        }
    }
}

/// The range from which room codes are drawn.
#[derive(Debug)]
pub struct UniformID {
    low: u32,
    high: u32,
}

impl UniformID {
    #[verifier::type_invariant]
    spec fn within_codes(self) -> bool {
        MIN <= self.low && self.low < self.high && self.high <= MAX
    }

    /// The smallest number that is drawn.
    pub closed spec fn low(&self) -> u32 {
        self.low
    }

    /// One more than the largest number that is drawn.
    pub closed spec fn high(&self) -> u32 {
        self.high
    }
}

impl Default for UniformID {
    /// The whole range of room codes, from `MIN` up to `MAX`.
    fn default() -> (gen: Self)
        ensures
            gen.low() == MIN,
            gen.high() == MAX,
    {
        UniformID { low: MIN, high: MAX }
    }
}

/// `Uniform::from(low..high)` of rand, sampled once with rand's
/// thread-local generator: some number from `low` up to, not including,
/// `high`. rand panics on an empty range, which `requires` leaves out.
#[verifier::external_body]
fn sample_uniform(low: u32, high: u32) -> (n: u32)
    requires
        low < high,
    ensures
        low <= n < high,
{
    Uniform::from(low..high).sample(&mut thread_rng())
}

/// A room code, as the text that is shown to the players.
#[derive(Debug, Hash, PartialEq, Eq, PartialOrd, Ord)]
pub struct GameID(pub String);

impl Clone for GameID {
    fn clone(&self) -> (id: Self)
        ensures
            id == *self,
    {
        GameID(self.0.clone())
    }
}

impl From<String> for GameID {
    /// Takes any text for a code; `number` tells whether it is one.
    fn from(value: String) -> (id: Self) {
        GameID(value)
    }
}

impl vstd::std_specs::convert::FromSpecImpl<String> for GameID {
    open spec fn obeys_from_spec() -> bool {
        true
    }

    open spec fn from_spec(value: String) -> Self {
        GameID(value)
    }
}

impl View for GameID {
    type V = Seq<char>;

    open spec fn view(&self) -> Seq<char> {
        self.0@
    }
}

impl GameID {
    /// Draws a room code from `gen`.
    pub fn new_rand(gen: &UniformID) -> (id: Self)
        ensures
            is_code(id@),
            gen.low() <= value36(id@) < gen.high(),
    {
        proof {
            use_type_invariant(gen);
        }
        let n = sample_uniform(gen.low, gen.high);
        proof {
            lemma_code_of_number(n);
            lemma_value_of_digits(n as nat);
        }
        GameID(encode(n))
    }

    /// The text that is written for `n`, which is a room code for the
    /// numbers from `MIN` up to `MAX` and for no others.
    pub fn from_number(n: u32) -> (id: Self)
        ensures
            id@ == digits36(n as nat),
            is_code(id@) <==> MIN <= n < MAX,
            is_code(id@) ==> code_number(id@) == Some(n),
    {
        proof {
            lemma_value_of_digits(n as nat);
            if MIN <= n < MAX {
                lemma_code_of_number(n);
            }
            if is_code(digits36(n as nat)) {
                lemma_number_of_code(digits36(n as nat));
            }
        }
        GameID(encode(n))
    }

    /// The number of this room code; `None` where the text is no room code.
    pub fn number(&self) -> (n: Option<u32>)
        ensures
            n == code_number(self@),
    {
        let text = self.0.as_str();
        if text.unicode_len() != 6 {
            return None;
        }
        if text.get_char(0) == '0' {
            return None;
        }
        let n = decode(text);
        proof {
            if all_symbols(self@) {
                lemma_number_of_code(self@);
            }
        }
        n
    }

    /// The text of the code.
    pub fn to_string(&self) -> (text: String)
        ensures
            text@ == self@,
    {
        self.0.clone()
    }
}

/// 36 to the power `k`.
pub open spec fn pow36(k: nat) -> nat
    decreases k,
{
    if k == 0 {
        1
    } else {
        36 * pow36((k - 1) as nat)
    }
}

/// Whether `s` is a room code: six symbols, the first of them not `0`.
pub open spec fn is_code(s: Seq<char>) -> bool {
    s.len() == 6 && all_symbols(s) && s[0] != '0'
}

/// The number of the room code `s`; `None` where `s` is no room code.
pub open spec fn code_number(s: Seq<char>) -> Option<u32> {
    if is_code(s) {
        Some(value36(s) as u32)
    } else {
        None
    }
}

/// `symbol` and `symbol_value` undo each other.
pub proof fn lemma_symbol_value(d: nat, c: char)
    ensures
        d < 36 ==> is_symbol(symbol(d)) && symbol_value(symbol(d)) == d,
        is_symbol(c) ==> symbol_value(c) < 36 && symbol(symbol_value(c)) == c,
        symbol_value(c) == 0 && is_symbol(c) ==> c == '0',
{
}

/// What `digits36` writes is made of symbols and denotes the number written.
pub proof fn lemma_value_of_digits(n: nat)
    ensures
        all_symbols(digits36(n)),
        value36(digits36(n)) == n,
        digits36(n).len() >= 1,
        n > 0 ==> digits36(n)[0] != '0',
    decreases n,
{
    lemma_symbol_value(n % 36, '0');
    let s = digits36(n);
    if n < 36 {
        assert(s.drop_last() =~= Seq::<char>::empty());
        assert(value36(s.drop_last()) == 0);
        assert(s.last() == symbol(n));
    } else {
        lemma_value_of_digits(n / 36);
        assert(s.drop_last() =~= digits36(n / 36));
        assert(s.last() == symbol(n % 36));
        assert(s[0] == digits36(n / 36)[0]);
    }
    assert(value36(s) == value36(s.drop_last()) * 36 + symbol_value(s.last()));
}

/// A text of symbols denotes less than 36 to the power of its length, and,
/// where it does not begin with `0`, no less than 36 to the power of its
/// length less one.
pub proof fn lemma_value36_bounds(s: Seq<char>)
    requires
        all_symbols(s),
    ensures
        value36(s) < pow36(s.len()),
        s.len() >= 1 && s[0] != '0' ==> value36(s) >= pow36((s.len() - 1) as nat),
    decreases s.len(),
{
    if s.len() > 0 {
        lemma_value36_bounds(s.drop_last());
        lemma_symbol_value(0, s.last());
        if s.len() == 1 {
            assert(value36(s.drop_last()) == 0);
        }
    }
}

/// A text of symbols without a leading zero is the shortest way to write
/// the number that it denotes.
pub proof fn lemma_digits_of_value(s: Seq<char>)
    requires
        all_symbols(s),
        s.len() >= 1,
        s.len() > 1 ==> s[0] != '0',
    ensures
        digits36(value36(s)) == s,
    decreases s.len(),
{
    lemma_symbol_value(0, s.last());
    if s.len() == 1 {
        assert(value36(s.drop_last()) == 0);
        assert(digits36(value36(s)) =~= s);
    } else {
        let p = s.drop_last();
        lemma_digits_of_value(p);
        lemma_value36_bounds(p);
        assert(pow36((p.len() - 1) as nat) >= 1) by {
            lemma_pow36_positive((p.len() - 1) as nat);
        }
        assert(digits36(value36(s)) =~= s);
    }
}

/// Powers of 36 are positive.
pub proof fn lemma_pow36_positive(k: nat)
    ensures
        pow36(k) >= 1,
    decreases k,
{
    if k > 0 {
        lemma_pow36_positive((k - 1) as nat);
    }
}

/// The numbers written with six symbols are those from `MIN` up to, not
/// including, `MAX`.
pub proof fn lemma_pow36_limits()
    ensures
        pow36(5) == MIN,
        pow36(6) == MAX,
{
    reveal_with_fuel(pow36, 8);
}

/// Writing a number and reading it back gives the number, for every number
/// of 32 bits and so for every number from `MIN` up to `MAX`.
pub proof fn lemma_decode_encode(n: u32)
    ensures
        decoded(digits36(n as nat)) == Some(n),
{
    lemma_value_of_digits(n as nat);
}

/// A number from `MIN` up to, not including, `MAX` is written as a room
/// code, and that code's number is the number written.
pub proof fn lemma_code_of_number(n: u32)
    requires
        MIN <= n < MAX,
    ensures
        is_code(digits36(n as nat)),
        code_number(digits36(n as nat)) == Some(n),
{
    let s = digits36(n as nat);
    lemma_value_of_digits(n as nat);
    lemma_value36_bounds(s);
    lemma_pow36_limits();
    lemma_pow36_monotone(s.len(), 5);
    lemma_pow36_monotone(6, (s.len() - 1) as nat);
}

/// Powers of 36 grow with the exponent.
pub proof fn lemma_pow36_monotone(j: nat, k: nat)
    ensures
        j <= k ==> pow36(j) <= pow36(k),
    decreases k,
{
    if j < k {
        lemma_pow36_monotone(j, (k - 1) as nat);
        lemma_pow36_positive((k - 1) as nat);
    }
}

/// The number of a room code lies from `MIN` up to, not including, `MAX`,
/// and the code is the way that number is written.
pub proof fn lemma_number_of_code(s: Seq<char>)
    requires
        is_code(s),
    ensures
        MIN <= value36(s) < MAX,
        digits36(value36(s)) == s,
{
    lemma_value36_bounds(s);
    lemma_pow36_limits();
    lemma_digits_of_value(s);
}

} // verus!
