use mentat::symbols::{Keyword, NamespacedKeyword, NamespacedSymbol, PlainSymbol};

#[test]
fn test_ns_keyword_macro() {
    assert_eq!(NamespacedKeyword::new("test", "name").to_string(),
               NamespacedKeyword::new("test", "name").to_string());
    assert_eq!(NamespacedKeyword::new("ns", "_name").to_string(),
               NamespacedKeyword::new("ns", "_name").to_string());
    assert_eq!(NamespacedKeyword::new("test", "name").to_string(), ":test/name");
    assert_eq!(NamespacedKeyword::new("ns", "_name").to_string(), ":ns/_name");
}

#[test]
fn plain_symbols() {
    assert_eq!("foo", PlainSymbol::new("?foo").plain_name());
    assert_eq!("foo", PlainSymbol::new("$foo").plain_name());
    assert_eq!("!foo", PlainSymbol::new("!foo").plain_name());
    assert_eq!("", PlainSymbol::new("?").plain_name());
    assert!(PlainSymbol::new("?x").is_var_symbol());
    assert!(!PlainSymbol::new("?x").is_src_symbol());
    assert!(PlainSymbol::new("$").is_src_symbol());
    assert!(!PlainSymbol::new("x?").is_var_symbol());
    assert_eq!("baz", PlainSymbol::new("baz").to_string());
    assert_eq!("bar/baz", NamespacedSymbol::new("bar", "baz").to_string());
    assert_eq!(NamespacedSymbol::new("bar", "baz").components(), ("bar", "baz"));
}

#[test]
fn keywords() {
    let bar = Keyword::new("bar");
    let foo_bar = NamespacedKeyword::new("foo", "bar");
    assert_eq!("bar", bar.0);
    assert_eq!("bar", foo_bar.name());
    assert_eq!("foo", foo_bar.namespace());
    assert_eq!(("foo", "bar"), foo_bar.components());
    assert_eq!(":baz", Keyword::new("baz").to_string());
    assert_eq!(":bar/baz", NamespacedKeyword::new("bar", "baz").to_string());
}

#[test]
fn reversal() {
    let nsk = NamespacedKeyword::new("foo", "bar");
    assert!(!nsk.is_backward());
    assert!(nsk.is_forward());
    assert_eq!(":foo/bar", nsk.to_string());
    assert_eq!(None, nsk.unreversed());

    let reversed = nsk.to_reversed();
    assert!(reversed.is_backward());
    assert!(!reversed.is_forward());
    assert_eq!(":foo/_bar", reversed.to_string());
    assert_eq!(Some(nsk.clone()), reversed.unreversed());

    // Reversing twice gives the keyword back.
    assert_eq!(nsk, nsk.to_reversed().to_reversed());
    assert_eq!(reversed, reversed.to_reversed().to_reversed());
    assert_eq!(":bar/baz", NamespacedKeyword::new("bar", "baz").to_reversed().to_reversed().to_string());

    // A name that begins with two underscores does not come back.
    let odd = NamespacedKeyword::new("foo", "__bar");
    assert_eq!(":foo/_bar", odd.to_reversed().to_string());
    assert_eq!(":foo/bar", odd.to_reversed().to_reversed().to_string());
}
