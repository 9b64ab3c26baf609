use dtab::{Dentry, Dtab, NameTree, Prefix, W};
use dtab::NameTree::{Alt, Empty, Fail, Leaf, Neg, Union};

fn text(s: &str) -> NameTree<String> {
    NameTree::from_text(s)
}

#[test]
fn simple_alt() {
    let t = text("/humphrys").alt_text("/smitten");
    assert_eq!(t, Alt(Box::new(text("/humphrys")), Box::new(text("/smitten"))));
}

#[test]
fn multiple_alt() {
    let t = text("/humphrys").alt_text("/smitten").alt_text("/birite").alt_text("/three-twins");
    assert_eq!(
        t,
        Alt(
            Box::new(Alt(
                Box::new(Alt(Box::new(text("/humphrys")), Box::new(text("/smitten")))),
                Box::new(text("/birite"))
            )),
            Box::new(text("/three-twins"))
        )
    );
}

#[test]
fn neg_alt() {
    let t = text("~").alt_text("/smitten");
    assert_eq!(t, Alt(Box::new(Neg), Box::new(Leaf("/smitten".to_string()))));
}

#[test]
fn fail_alt() {
    let t = text("/smitten").alt_text("!");
    assert_eq!(t, Alt(Box::new(Leaf("/smitten".to_string())), Box::new(Fail)));
}

#[test]
fn simple_union() {
    let t = text("/humphrys").union_text("/smitten");
    assert_eq!(
        t,
        Union(
            W::new(false, 5, 1).mul("/humphrys"),
            W::new(false, 5, 1).mul("/smitten")
        )
    );
}

#[test]
fn simple_weighted_union() {
    let t = W::new(false, 7, 1).mul("/humphrys").union(W::new(false, 3, 1).mul("/smitten"));
    assert_eq!(
        t,
        Union(
            Leaf("/humphrys".to_string()).weighted(W::new(false, 7, 1)),
            Leaf("/smitten".to_string()).weighted(W::new(false, 3, 1))
        )
    );
}

#[test]
fn sentinels_from_text() {
    assert_eq!(text("~"), Neg);
    assert_eq!(text("!"), Fail);
    assert_eq!(text("$"), Empty);
    assert_eq!(text("~~"), Leaf("~~".to_string()));
    assert_eq!(text("/x"), Leaf("/x".to_string()));
    assert_eq!(NameTree::leaf(7u32), Leaf(7u32));
}

#[test]
fn sentinels_render_as_symbols() {
    assert_eq!(text("~").render(), "~");
    assert_eq!(text("!").render(), "!");
    assert_eq!(text("$").render(), "$");
}

#[test]
fn alternation_chain_renders_flat() {
    let t = text("a").alt_text("b").alt_text("c");
    assert_eq!(t.render(), "a | b | c");
}

#[test]
fn union_default_weight_renders() {
    let t = text("/x").union(text("/y"));
    assert_eq!(t.render(), "0.5 * /x & 0.5 * /y");
}

#[test]
fn union_explicit_weight_renders() {
    let t = text("/x")
        .weighted(W::new(false, 7, 1))
        .union(text("/y").weighted(W::new(false, 3, 1)));
    assert_eq!(t.render(), "0.7 * /x & 0.3 * /y");
}

#[test]
fn weight_texts() {
    assert_eq!(W::default_weight().render(), "0.5");
    assert_eq!(W::new(false, 10, 1).render(), "1");
    assert_eq!(W::new(false, 0, 0).render(), "0");
    assert_eq!(W::new(true, 225, 2).render(), "-2.25");
    assert_eq!(W::new(false, 5, 3).render(), "0.005");
    assert_eq!(W::new(false, 1200, 3).render(), "1.2");
    assert_eq!(W::new(false, 42, 0).render(), "42");
    assert_eq!(W::new(false, 0, 4).render(), "0");
}

#[test]
fn weighted_renders() {
    assert_eq!(text("/x").weighted(W::new(false, 25, 2)).render(), "0.25 * /x");
}

#[test]
fn dentry_end_to_end() {
    let tree = NameTree::from_text("/smitten")
        .alt_text("/humphrys")
        .alt_text("/birite")
        .alt_text("/three-twins");
    let dentry = Dentry::parse("/iceCreamStore", tree).unwrap();
    assert_eq!(
        dentry.render(),
        "/iceCreamStore => /smitten | /humphrys | /birite | /three-twins;"
    );
}

#[test]
fn dentry_with_sentinels() {
    let d = Dentry::new(Prefix::try_from("/iceCreamStore").unwrap(), text("~").alt_text("/smitten"));
    assert_eq!(d.render(), "/iceCreamStore => ~ | /smitten;");
    let d = Dentry::new(Prefix::try_from("/iceCreamStore").unwrap(), text("/smitten").alt(Fail));
    assert_eq!(d.render(), "/iceCreamStore => /smitten | !;");
}

#[test]
fn dentry_weighted_union() {
    let dst = W::new(false, 7, 1).mul("/smitten").union(W::new(false, 3, 1).mul("/humphrys"));
    let d = Dentry::parse("/iceCreamStore", dst).unwrap();
    assert_eq!(d.render(), "/iceCreamStore => 0.7 * /smitten & 0.3 * /humphrys;");
}

#[test]
fn dentry_parse_error() {
    assert!(Dentry::parse("/ice cream", text("/x")).is_err());
}

#[test]
fn dtab_keeps_order() {
    let dtab = Dtab::new(vec![
        Dentry::parse("/smitten", text("/USA/CA/SF/Harrison/2790")).unwrap(),
        Dentry::parse("/iceCreamStore", text("/humphrys").alt_text("/smitten")).unwrap(),
    ]);
    assert_eq!(
        dtab.render(),
        "/smitten => /USA/CA/SF/Harrison/2790;\n/iceCreamStore => /humphrys | /smitten;\n"
    );
}

#[test]
fn empty_dtab_renders_empty() {
    assert_eq!(Dtab::new(vec![]).render(), "");
}
