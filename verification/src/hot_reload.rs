//! File names for hot reloading the game library: the library file that the
//! build writes, and the numbered copies that are loaded in its place, so
//! that the build can replace the original while a copy is loaded.
use vstd::prelude::*;

use crate::sprite_sheet::decimal_value;

verus! {

/// The character of decimal digit `d`.
pub open spec fn digit_char(d: int) -> char {
    (48 + d) as char
}

/// The decimal digits of `n`, most significant first, as `usize::to_string`
/// writes them.
pub open spec fn decimal_spec(n: nat) -> Seq<char>
    decreases n,
{
    if n < 10 {
        seq![digit_char(n as int)]
    } else {
        decimal_spec(n / 10).push(digit_char((n % 10) as int))
    }
}

/// What the file name of a shared library starts with: `lib` on Linux,
/// nothing on Windows.
pub open spec fn lib_prefix(on_windows: bool) -> Seq<char> {
    if on_windows {
        Seq::empty()
    } else {
        seq!['l', 'i', 'b']
    }
}

/// The extension of a shared library: `.dll` on Windows, `.so` on Linux.
pub open spec fn lib_suffix(on_windows: bool) -> Seq<char> {
    if on_windows {
        seq!['.', 'd', 'l', 'l']
    } else {
        seq!['.', 's', 'o']
    }
}

/// The file name of a shared library called `lib_name`: `<name>.dll` on
/// Windows, `lib<name>.so` on Linux.
pub open spec fn lib_file_name_spec(lib_name: Seq<char>, on_windows: bool) -> Seq<char> {
    lib_prefix(on_windows) + lib_name + lib_suffix(on_windows)
}

/// The directory below the library's directory that holds the copies.
pub open spec fn copies_dir_name() -> Seq<char> {
    seq!['l', 'i', 'b', 'c', 'o', 'p', 'i', 'e', 's', '/']
}

/// Reading back the decimal digits of `n` gives `n`.
pub proof fn lemma_decimal_value_of_decimal(n: nat)
    ensures
        decimal_value(decimal_spec(n)) == n,
        decimal_spec(n).len() > 0,
    decreases n,
{
    assert(('0' as u32) == 48);
    if n < 10 {
        let s = decimal_spec(n);
        assert(s.drop_last() =~= Seq::<char>::empty());
        assert(s.last() == digit_char(n as int));
        assert((digit_char(n as int) as u32) == 48 + n);
        assert(decimal_value(s) == decimal_value(s.drop_last()) * 10 + ((s.last() as u32) - (
        '0' as u32)) as nat);
    } else {
        lemma_decimal_value_of_decimal(n / 10);
        let s = decimal_spec(n);
        assert(s.drop_last() =~= decimal_spec(n / 10));
        assert(s.last() == digit_char((n % 10) as int));
        assert((digit_char((n % 10) as int) as u32) == 48 + n % 10);
        assert(decimal_value(s) == decimal_value(s.drop_last()) * 10 + ((s.last() as u32) - (
        '0' as u32)) as nat);
        assert(decimal_value(s) == (n / 10) * 10 + n % 10);
    }
}

/// The single digit string of `d`.
fn digit_str(d: usize) -> (r: &'static str)
    requires
        d < 10,
    ensures
        r@ == seq![digit_char(d as int)],
{
    proof {
        reveal_strlit("0");
        reveal_strlit("1");
        reveal_strlit("2");
        reveal_strlit("3");
        reveal_strlit("4");
        reveal_strlit("5");
        reveal_strlit("6");
        reveal_strlit("7");
        reveal_strlit("8");
        reveal_strlit("9");
    }
    let r = match d {
        0 => "0",
        1 => "1",
        2 => "2",
        3 => "3",
        4 => "4",
        5 => "5",
        6 => "6",
        7 => "7",
        8 => "8",
        _ => "9",
    };
    assert(r@ =~= seq![digit_char(d as int)]);
    r
}

/// `n` written in decimal.
pub fn decimal_string(n: usize) -> (r: String)
    ensures
        r@ == decimal_spec(n as nat),
    decreases n,
{
    if n < 10 {
        String::from_str(digit_str(n))
    } else {
        let mut s = decimal_string(n / 10);
        s.append(digit_str(n % 10));
        s
    }
}

/// The file name of the shared library `lib_name` on the target system,
/// which is Windows when `on_windows` holds and Linux otherwise.
pub fn lib_name_to_file_name(lib_name: &str, on_windows: bool) -> (r: String)
    ensures
        r@ == lib_file_name_spec(lib_name@, on_windows),
{
    proof {
        reveal_strlit("lib");
        reveal_strlit(".so");
        reveal_strlit(".dll");
    }
    let r = if on_windows {
        String::from_str(lib_name).concat(".dll")
    } else {
        String::from_str("lib").concat(lib_name).concat(".so")
    };
    assert(r@ =~= lib_file_name_spec(lib_name@, on_windows));
    r
}

/// The paths of the game library in `lib_path`, of the directory for its
/// copies, and of the copy with number `copy_counter`, on Windows when
/// `on_windows` holds and on Linux otherwise.
pub fn construct_paths(copy_counter: usize, lib_path: &str, lib_name: &str, on_windows: bool) -> (r: (String, String, String))
    ensures
        r.0@ == lib_path@ + lib_file_name_spec(lib_name@, on_windows),
        r.1@ == lib_path@ + copies_dir_name(),
        r.2@ == lib_path@ + copies_dir_name() + lib_file_name_spec(
            lib_name@ + decimal_spec(copy_counter as nat),
            on_windows,
        ),
{
    proof {
        reveal_strlit("libcopies/");
    }
    let file_path = String::from_str(lib_path).concat(
        lib_name_to_file_name(lib_name, on_windows).as_str(),
    );
    let copy_path = String::from_str(lib_path).concat("libcopies/");
    let numbered_name = String::from_str(lib_name).concat(decimal_string(copy_counter).as_str());
    let copy_file_path = copy_path.clone().concat(
        lib_name_to_file_name(numbered_name.as_str(), on_windows).as_str(),
    );
    assert(copy_path@ =~= lib_path@ + copies_dir_name());
    (file_path, copy_path, copy_file_path)
}

/// Every reload loads a copy of its own: copies with different numbers have
/// different paths.
pub proof fn law_copies_have_distinct_paths(
    lib_path: Seq<char>,
    lib_name: Seq<char>,
    on_windows: bool,
    counter1: nat,
    counter2: nat,
)
    requires
        counter1 != counter2,
    ensures
        lib_path + copies_dir_name() + lib_file_name_spec(lib_name + decimal_spec(counter1), on_windows)
            != lib_path + copies_dir_name() + lib_file_name_spec(
            lib_name + decimal_spec(counter2),
            on_windows,
        ),
{
    let prefix = lib_path + copies_dir_name() + lib_prefix(on_windows) + lib_name;
    let suffix = lib_suffix(on_windows);
    let d1 = decimal_spec(counter1);
    let d2 = decimal_spec(counter2);
    let p1 = lib_path + copies_dir_name() + lib_file_name_spec(lib_name + d1, on_windows);
    let p2 = lib_path + copies_dir_name() + lib_file_name_spec(lib_name + d2, on_windows);
    assert(p1 =~= prefix + d1 + suffix);
    assert(p2 =~= prefix + d2 + suffix);
    lemma_decimal_value_of_decimal(counter1);
    lemma_decimal_value_of_decimal(counter2);
    if p1 == p2 {
        assert(d1.len() == d2.len());
        assert(d1 =~= p1.subrange(prefix.len() as int, (prefix.len() + d1.len()) as int));
        assert(d2 =~= p2.subrange(prefix.len() as int, (prefix.len() + d2.len()) as int));
        assert(decimal_value(d1) == decimal_value(d2));
    }
}

} // verus!
