use vstd::prelude::*;

verus! {

/// The basic glyph alphabet, ordered from darkest to lightest.
pub open spec fn basic_chars() -> Seq<char> {
    seq!['@', '%', '#', '*', '+', '=', '-', ':', '.', ' ']
}

/// The detailed glyph alphabet, ordered from darkest to lightest.
pub open spec fn detailed_chars() -> Seq<char> {
    seq![
        '$', '@', 'B', '%', '8', '&', 'W', 'M', '#', '*',
        'o', 'a', 'h', 'k', 'b', 'd', 'p', 'q', 'w', 'm',
        'Z', 'O', '0', 'Q', 'L', 'C', 'J', 'U', 'Y', 'X',
        'z', 'c', 'v', 'u', 'n', 'x', 'r', 'j', 'f', 't',
        '/', '\\', '|', '(', ')', '1', '{', '}', '[', ']',
        '?', '-', '_', '+', '~', '<', '>', 'i', '!', 'l',
        'I', ';', ':', ',', '"', '^', '`', '\'', '.', ' ',
    ]
}

/// The high-density glyph alphabet of Unicode block and shape
/// characters, ordered from densest to sparsest.
pub open spec fn high_density_chars() -> Seq<char> {
    seq![
        '█', '▓', '▒', '░', '▄', '▀', '■', '▪', '●', '◆',
        '◉', '◍', '◎', '○', '☉', '◌', '◊', '♦', '♢',
        '.', ' ',
    ]
}

/// The alphabet used on the grayscale path.
pub open spec fn gray_alpha(use_high_density: bool, use_detailed: bool) -> Seq<char> {
    if use_high_density {
        high_density_chars()
    } else if use_detailed {
        detailed_chars()
    } else {
        basic_chars()
    }
}

/// The alphabet used on the colored path.
pub open spec fn color_alpha(use_detailed: bool, use_high_density: bool) -> Seq<char> {
    if use_detailed {
        detailed_chars()
    } else if use_high_density {
        high_density_chars()
    } else {
        basic_chars()
    }
}

/// The glyph index for an aggregate brightness given as the exact
/// fraction `num / den` in `[0, 1]`: the floor of `num / den * (n - 1)`.
/// A degenerate denominator (an empty pixel block) selects index 0.
pub open spec fn select_index(num: int, den: int, n: int) -> int {
    if den <= 0 {
        0
    } else {
        (num * (n - 1)) / den
    }
}

/// The selected index stays within the alphabet: brightness never
/// overflows past the last glyph.
pub proof fn lemma_select_index_in_range(num: int, den: int, n: int)
    requires
        n >= 2,
        den > 0 ==> 0 <= num <= den,
    ensures
        0 <= select_index(num, den, n) < n,
{
    if den > 0 {
        assert(num * (n - 1) <= den * (n - 1)) by (nonlinear_arith)
            requires num <= den && n >= 2;
        assert(0 <= num * (n - 1)) by (nonlinear_arith)
            requires 0 <= num && n >= 2;
        assert(0 <= (num * (n - 1)) / den < n) by (nonlinear_arith)
            requires den > 0 && 0 <= num * (n - 1) <= den * (n - 1) && n >= 2;
    }
}

/// Glyph selection is monotone: a brighter aggregate never selects an
/// earlier (darker) glyph, for a fixed alphabet.
pub proof fn lemma_select_index_monotonic(num1: int, num2: int, den: int, n: int)
    requires
        n >= 2,
        den > 0,
        0 <= num1 <= num2 <= den,
    ensures
        select_index(num1, den, n) <= select_index(num2, den, n),
{
    assert(num1 * (n - 1) <= num2 * (n - 1)) by (nonlinear_arith)
        requires num1 <= num2 && n >= 2;
    assert((num1 * (n - 1)) / den <= (num2 * (n - 1)) / den) by (nonlinear_arith)
        requires den > 0 && num1 * (n - 1) <= num2 * (n - 1);
}

/// Brightness 0 selects the first (darkest) glyph and brightness 1 the
/// last (lightest) one.
pub proof fn lemma_select_index_endpoints(den: int, n: int)
    requires
        n >= 2,
        den > 0,
    ensures
        select_index(0, den, n) == 0,
        select_index(den, den, n) == n - 1,
{
    assert(0int / den == 0) by (nonlinear_arith)
        requires den > 0;
    assert((den * (n - 1)) / den == n - 1) by (nonlinear_arith)
        requires den > 0;
}

/// The plain and the inverted selection are symmetric around the
/// alphabet midpoint: the two indices sum to `n - 1` when the
/// brightness falls exactly on a glyph boundary, and to `n - 2`
/// otherwise.
pub proof fn lemma_select_index_symmetry(num: int, den: int, n: int)
    requires
        n >= 2,
        den > 0,
        0 <= num <= den,
    ensures
        (num * (n - 1)) % den == 0 ==> select_index(num, den, n) + select_index(den - num, den, n) == n - 1,
        (num * (n - 1)) % den != 0 ==> select_index(num, den, n) + select_index(den - num, den, n) == n - 2,
{
    let a = num * (n - 1);
    let b = (den - num) * (n - 1);
    assert(a + b == den * (n - 1) && 0 <= a && 0 <= b) by (nonlinear_arith)
        requires
            a == num * (n - 1),
            b == (den - num) * (n - 1),
            0 <= num <= den,
            n >= 2;
    let q = a / den;
    let r = a % den;
    vstd::arithmetic::div_mod::lemma_fundamental_div_mod(a, den);
    vstd::arithmetic::div_mod::lemma_mod_bound(a, den);
    if r == 0 {
        assert(b == den * (n - 1 - q)) by (nonlinear_arith)
            requires
                a == den * q + r,
                r == 0,
                a + b == den * (n - 1);
        vstd::arithmetic::div_mod::lemma_fundamental_div_mod_converse(b, den, n - 1 - q, 0);
    } else {
        assert(b == den * (n - 2 - q) + (den - r)) by (nonlinear_arith)
            requires
                a == den * q + r,
                a + b == den * (n - 1);
        vstd::arithmetic::div_mod::lemma_fundamental_div_mod_converse(b, den, n - 2 - q, den - r);
    }
}

/// No glyph of any alphabet is a newline, so glyph rows contain the
/// newline only as their terminator.
pub proof fn lemma_alphabets_no_newline()
    ensures
        forall|i: int| 0 <= i < basic_chars().len() ==> #[trigger] basic_chars()[i] != '\n',
        forall|i: int| 0 <= i < detailed_chars().len() ==> #[trigger] detailed_chars()[i] != '\n',
        forall|i: int| 0 <= i < high_density_chars().len() ==> #[trigger] high_density_chars()[i] != '\n',
{
}

/// The executable basic alphabet.
pub fn basic_alphabet() -> (v: Vec<char>)
    ensures
        v@ == basic_chars(),
{
    let mut v: Vec<char> = Vec::new();
    v.push('@'); v.push('%'); v.push('#'); v.push('*'); v.push('+');
    v.push('='); v.push('-'); v.push(':'); v.push('.'); v.push(' ');
    proof {
        assert(v@ =~= basic_chars());
    }
    v
}

/// The executable detailed alphabet.
pub fn detailed_alphabet() -> (v: Vec<char>)
    ensures
        v@ == detailed_chars(),
{
    let mut v: Vec<char> = Vec::new();
    v.push('$'); v.push('@'); v.push('B'); v.push('%'); v.push('8');
    v.push('&'); v.push('W'); v.push('M'); v.push('#'); v.push('*');
    v.push('o'); v.push('a'); v.push('h'); v.push('k'); v.push('b');
    v.push('d'); v.push('p'); v.push('q'); v.push('w'); v.push('m');
    v.push('Z'); v.push('O'); v.push('0'); v.push('Q'); v.push('L');
    v.push('C'); v.push('J'); v.push('U'); v.push('Y'); v.push('X');
    v.push('z'); v.push('c'); v.push('v'); v.push('u'); v.push('n');
    v.push('x'); v.push('r'); v.push('j'); v.push('f'); v.push('t');
    v.push('/'); v.push('\\'); v.push('|'); v.push('('); v.push(')');
    v.push('1'); v.push('{'); v.push('}'); v.push('['); v.push(']');
    v.push('?'); v.push('-'); v.push('_'); v.push('+'); v.push('~');
    v.push('<'); v.push('>'); v.push('i'); v.push('!'); v.push('l');
    v.push('I'); v.push(';'); v.push(':'); v.push(','); v.push('"');
    v.push('^'); v.push('`'); v.push('\''); v.push('.'); v.push(' ');
    proof {
        assert(v@ =~= detailed_chars());
    }
    v
}

/// The executable high-density alphabet.
pub fn high_density_alphabet() -> (v: Vec<char>)
    ensures
        v@ == high_density_chars(),
{
    let mut v: Vec<char> = Vec::new();
    v.push('█'); v.push('▓'); v.push('▒'); v.push('░'); v.push('▄');
    v.push('▀'); v.push('■'); v.push('▪'); v.push('●'); v.push('◆');
    v.push('◉'); v.push('◍'); v.push('◎'); v.push('○'); v.push('☉');
    v.push('◌'); v.push('◊'); v.push('♦'); v.push('♢');
    v.push('.'); v.push(' ');
    proof {
        assert(v@ =~= high_density_chars());
    }
    v
}

/// The executable grayscale-path alphabet choice.
pub fn gray_alphabet(use_high_density: bool, use_detailed: bool) -> (v: Vec<char>)
    ensures
        v@ == gray_alpha(use_high_density, use_detailed),
        v@.len() >= 2,
{
    if use_high_density {
        high_density_alphabet()
    } else if use_detailed {
        detailed_alphabet()
    } else {
        basic_alphabet()
    }
}

/// The executable colored-path alphabet choice.
pub fn color_alphabet(use_detailed: bool, use_high_density: bool) -> (v: Vec<char>)
    ensures
        v@ == color_alpha(use_detailed, use_high_density),
        v@.len() >= 2,
{
    if use_detailed {
        detailed_alphabet()
    } else if use_high_density {
        high_density_alphabet()
    } else {
        basic_alphabet()
    }
}

/// The executable glyph selector over an exact brightness fraction.
pub fn select_glyph_index(num: u128, den: u128, n: usize) -> (i: usize)
    requires
        2 <= n <= 1000,
        den > 0 ==> num <= den,
        den <= 0x1000_0000_0000_0000_0000_0000,
    ensures
        i as int == select_index(num as int, den as int, n as int),
        i < n,
{
    proof {
        lemma_select_index_in_range(num as int, den as int, n as int);
    }
    if den == 0 {
        0
    } else {
        proof {
            assert(num * (n - 1) <= 0x1000_0000_0000_0000_0000_0000 * 1000) by (nonlinear_arith)
                requires
                    num <= 0x1000_0000_0000_0000_0000_0000,
                    2 <= n <= 1000;
        }
        let prod: u128 = num * (n as u128 - 1);
        let q: u128 = prod / den;
        proof {
            assert(q < n as u128) by (nonlinear_arith)
                requires
                    den > 0,
                    q == (num * (n as u128 - 1)) as int / den as int,
                    num <= den,
                    n >= 2,
                    prod == num * (n as u128 - 1);
        }
        q as usize
    }
}

} // verus!
