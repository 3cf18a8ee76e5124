use vstd::prelude::*;
use vstd::string::*;

verus! {

/// Character-wise equality of two strings.
pub fn text_eq(a: &str, b: &str) -> (r: bool)
    ensures
        r == (a@ == b@),
{
    let n = a.unicode_len();
    if n != b.unicode_len() {
        return false;
    }
    let mut i: usize = 0;
    while i < n
        invariant
            n == a@.len(),
            n == b@.len(),
            i <= n,
            a@.subrange(0, i as int) == b@.subrange(0, i as int),
        decreases n - i,
    {
        if a.get_char(i) != b.get_char(i) {
            return false;
        }
        assert(a@.subrange(0, i + 1) =~= a@.subrange(0, i as int).push(a@[i as int]));
        assert(b@.subrange(0, i + 1) =~= b@.subrange(0, i as int).push(b@[i as int]));
        i = i + 1;
    }
    assert(a@ =~= a@.subrange(0, n as int));
    assert(b@ =~= b@.subrange(0, n as int));
    true
}

/// Whether `s` ends with `suffix`.
pub open spec fn ends_with(s: Seq<char>, suffix: Seq<char>) -> bool {
    suffix.len() <= s.len() && s.subrange(s.len() - suffix.len(), s.len() as int) == suffix
}

/// Whether `s` ends with `suffix`, character by character.
pub fn text_ends_with(s: &str, suffix: &str) -> (r: bool)
    ensures
        r == ends_with(s@, suffix@),
{
    let n = s.unicode_len();
    let k = suffix.unicode_len();
    if k > n {
        return false;
    }
    let start = n - k;
    let mut i: usize = 0;
    while i < k
        invariant
            n == s@.len(),
            k == suffix@.len(),
            start == n - k,
            i <= k,
            s@.subrange(start as int, start + i) == suffix@.subrange(0, i as int),
        decreases k - i,
    {
        if s.get_char(start + i) != suffix.get_char(i) {
            assert(s@.subrange(start as int, n as int)[i as int] != suffix@[i as int]);
            return false;
        }
        assert(s@.subrange(start as int, start + i + 1) =~= s@.subrange(start as int, start + i).push(
            s@[start + i],
        ));
        assert(suffix@.subrange(0, i + 1) =~= suffix@.subrange(0, i as int).push(suffix@[i as int]));
        i = i + 1;
    }
    assert(suffix@ =~= suffix@.subrange(0, k as int));
    true
}

/// Names of version-control directories.
pub open spec fn is_vcs_name(s: Seq<char>) -> bool {
    s == ".git"@ || s == ".svn"@ || s == ".hg"@ || s == ".bzr"@ || s == ".darcs"@
}

/// Names that a directory of build artifacts has.
pub open spec fn is_artifact_root_name(s: Seq<char>) -> bool {
    s == "node_modules"@ || s == "target"@ || s == "__pycache__"@ || s == "build"@
        || s == ".pytest_cache"@ || s == ".tox"@ || s == ".mypy_cache"@
}

pub fn is_vcs_dir(name: &str) -> (r: bool)
    ensures
        r == is_vcs_name(name@),
{
    text_eq(name, ".git") || text_eq(name, ".svn") || text_eq(name, ".hg") || text_eq(
        name,
        ".bzr",
    ) || text_eq(name, ".darcs")
}

pub fn is_artifact_root(name: &str) -> (r: bool)
    ensures
        r == is_artifact_root_name(name@),
{
    text_eq(name, "node_modules") || text_eq(name, "target") || text_eq(name, "__pycache__")
        || text_eq(name, "build") || text_eq(name, ".pytest_cache") || text_eq(name, ".tox")
        || text_eq(name, ".mypy_cache")
}

/// Whether a scan passes over the contents of a directory of this name: version
/// control, or a directory of build artifacts.
pub fn should_skip_directory(dir_name: &str) -> (r: bool)
    ensures
        r == (is_vcs_name(dir_name@) || is_artifact_root_name(dir_name@)),
{
    is_vcs_dir(dir_name) || is_artifact_root(dir_name)
}

pub open spec fn digit_char(d: nat) -> char {
    if d == 0 {
        '0'
    } else if d == 1 {
        '1'
    } else if d == 2 {
        '2'
    } else if d == 3 {
        '3'
    } else if d == 4 {
        '4'
    } else if d == 5 {
        '5'
    } else if d == 6 {
        '6'
    } else if d == 7 {
        '7'
    } else if d == 8 {
        '8'
    } else {
        '9'
    }
}

/// Decimal digits of `n`, most significant first, without leading zeros.
pub open spec fn decimal(n: nat) -> Seq<char>
    decreases n,
{
    if n < 10 {
        seq![digit_char(n)]
    } else {
        decimal(n / 10).push(digit_char(n % 10))
    }
}

fn digit_str(d: u128) -> (r: &'static str)
    requires
        d < 10,
    ensures
        r@ == seq![digit_char(d as nat)],
{
    proof {
        reveal_strlit("0");
        reveal_strlit("1");
        reveal_strlit("2");
        reveal_strlit("3");
        reveal_strlit("4");
        reveal_strlit("5");
        reveal_strlit("6");
        reveal_strlit("7");
        reveal_strlit("8");
        reveal_strlit("9");
    }
    let r = if d == 0 {
        "0"
    } else if d == 1 {
        "1"
    } else if d == 2 {
        "2"
    } else if d == 3 {
        "3"
    } else if d == 4 {
        "4"
    } else if d == 5 {
        "5"
    } else if d == 6 {
        "6"
    } else if d == 7 {
        "7"
    } else if d == 8 {
        "8"
    } else {
        "9"
    };
    assert(r@ =~= seq![digit_char(d as nat)]);
    r
}

fn push_decimal(s: &mut String, n: u128)
    ensures
        final(s)@ == old(s)@ + decimal(n as nat),
    decreases n,
{
    if n >= 10 {
        push_decimal(s, n / 10);
    }
    s.append(digit_str(n % 10));
    assert(old(s)@ + decimal(n as nat) =~= if n >= 10 {
        old(s)@ + decimal((n / 10) as nat) + seq![digit_char((n % 10) as nat)]
    } else {
        old(s)@ + seq![digit_char((n % 10) as nat)]
    });
}

pub open spec fn kib(e: nat) -> nat
    decreases e,
{
    if e == 0 {
        1
    } else {
        1024 * kib((e - 1) as nat)
    }
}

/// Index of the unit a size is shown in: the largest `e <= 4` with `1024^e <= bytes`.
pub open spec fn unit_exponent(bytes: nat) -> nat {
    if bytes < kib(1) {
        0
    } else if bytes < kib(2) {
        1
    } else if bytes < kib(3) {
        2
    } else if bytes < kib(4) {
        3
    } else {
        4
    }
}

pub open spec fn unit_name(e: nat) -> Seq<char> {
    if e == 0 {
        "B"@
    } else if e == 1 {
        "KB"@
    } else if e == 2 {
        "MB"@
    } else if e == 3 {
        "GB"@
    } else {
        "TB"@
    }
}

/// `bytes / 1024^e` in hundredths, a tie rounded to the even neighbour.
pub open spec fn hundredths(bytes: nat, e: nat) -> nat {
    let p = kib(e);
    let q = (bytes * 100) / p;
    let rem = (bytes * 100) % p;
    if 2 * rem > p || (2 * rem == p && q % 2 == 1) {
        q + 1
    } else {
        q
    }
}

pub open spec fn two_digits(n: nat) -> Seq<char> {
    seq![digit_char((n % 100) / 10), digit_char(n % 10)]
}

/// The text of a byte count: whole bytes below 1 KB, else two decimals of the largest unit.
pub open spec fn size_text(bytes: nat) -> Seq<char> {
    let e = unit_exponent(bytes);
    if e == 0 {
        decimal(bytes) + " "@ + unit_name(e)
    } else {
        let h = hundredths(bytes, e);
        decimal(h / 100) + "."@ + two_digits(h) + " "@ + unit_name(e)
    }
}

fn unit_str(e: u32) -> (r: &'static str)
    requires
        e <= 4,
    ensures
        r@ == unit_name(e as nat),
{
    if e == 0 {
        "B"
    } else if e == 1 {
        "KB"
    } else if e == 2 {
        "MB"
    } else if e == 3 {
        "GB"
    } else {
        "TB"
    }
}

/// Human-readable size, e.g. `"100 B"`, `"1.50 MB"`.
pub fn format_size(bytes: u64) -> (r: String)
    ensures
        r@ == size_text(bytes as nat),
{
    proof {
        reveal_with_fuel(kib, 5);
    }
    let (e, p): (u32, u128) = if bytes < 1024 {
        (0, 1)
    } else if bytes < 1048576 {
        (1, 1024)
    } else if bytes < 1073741824 {
        (2, 1048576)
    } else if bytes < 1099511627776 {
        (3, 1073741824)
    } else {
        (4, 1099511627776)
    };
    assert(e as nat == unit_exponent(bytes as nat) && p as nat == kib(e as nat));
    let mut r = String::new();
    if e == 0 {
        push_decimal(&mut r, bytes as u128);
        r.append(" ");
        r.append(unit_str(e));
        return r;
    }
    let scaled: u128 = (bytes as u128) * 100;
    let q: u128 = scaled / p;
    let rem: u128 = scaled % p;
    let h: u128 = if 2 * rem > p || (2 * rem == p && q % 2 == 1) {
        q + 1
    } else {
        q
    };
    assert(h as nat == hundredths(bytes as nat, e as nat));
    push_decimal(&mut r, h / 100);
    r.append(".");
    push_decimal(&mut r, (h % 100) / 10);
    push_decimal(&mut r, h % 10);
    r.append(" ");
    r.append(unit_str(e));
    proof {
        reveal_with_fuel(decimal, 2);
    }
    assert(r@ =~= size_text(bytes as nat));
    r
}

} // verus!
