//! Name and path helpers.

use effs::pathname::check_name;
use effs::pathname::str_eq;

#[test]
fn proper_names() {
    assert!(check_name("a"));
    assert!(check_name("a.txt"));
    assert!(check_name("..."));
    assert!(check_name(".hidden"));
    assert!(!check_name(""));
    assert!(!check_name("."));
    assert!(!check_name(".."));
    assert!(!check_name("a/b"));
    assert!(!check_name("/"));
}

#[test]
fn string_equality() {
    assert!(str_eq("", ""));
    assert!(str_eq("abc", "abc"));
    assert!(!str_eq("abc", "abd"));
    assert!(!str_eq("abc", "ab"));
    assert!(str_eq("naïve", "naïve"));
    assert!(!str_eq("naïve", "naive"));
}
