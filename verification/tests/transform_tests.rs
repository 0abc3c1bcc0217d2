use css_minify::optimizations::font::FontTransformer;
use css_minify::optimizations::merge_blocks::MergeBlocks;
use css_minify::optimizations::merge_m_n_p::Merge;
use css_minify::optimizations::merge_media::MergeMedia;
use css_minify::optimizations::merge_shorthand::MergeShortHand;
use css_minify::structure::{
    Block, CssEntities, CssEntity, Media, Parameters, Selector, SelectorWithPseudoClasses,
    Selectors,
};
use indexmap::IndexMap;

fn params(pairs: &[(&str, &str)]) -> Parameters {
    let mut tmp: IndexMap<String, String> = IndexMap::new();
    for (k, v) in pairs {
        tmp.insert(k.to_string(), v.to_string());
    }
    Parameters(tmp)
}

fn class_block(name: &str, pairs: &[(&str, &str)]) -> Block {
    Block {
        selectors: Selectors(vec![SelectorWithPseudoClasses(
            Some(Selector::Class(name.into())),
            vec![],
        )]),
        parameters: params(pairs),
    }
}

fn bare_block(pairs: &[(&str, &str)]) -> CssEntity {
    CssEntity::Block(Block {
        selectors: Selectors::default(),
        parameters: params(pairs),
    })
}

#[test]
fn test_full_compress() {
    assert_eq!(
        Merge::default().transform(bare_block(&[
            ("margin-top", "3px"),
            ("margin-bottom", "3px"),
            ("margin-left", "3px"),
            ("margin-right", "3px"),
        ])),
        bare_block(&[("margin", "3px")])
    )
}

#[test]
fn test_compress_2() {
    assert_eq!(
        Merge::default().transform(bare_block(&[
            ("margin-top", "3px"),
            ("margin-bottom", "3px"),
            ("margin-left", "4px"),
            ("margin-right", "4px"),
        ])),
        bare_block(&[("margin", "3px 4px")])
    )
}

#[test]
fn test_compress_3() {
    assert_eq!(
        Merge::default().transform(bare_block(&[
            ("margin-top", "3px"),
            ("margin-bottom", "1px"),
            ("margin-left", "4px"),
            ("margin-right", "4px"),
        ])),
        bare_block(&[("margin", "3px 4px 1px")])
    )
}

#[test]
fn test_compress_4() {
    assert_eq!(
        Merge::default().transform(bare_block(&[
            ("margin-top", "3px"),
            ("margin-bottom", "1px"),
            ("margin-left", "2px"),
            ("margin-right", "4px"),
        ])),
        bare_block(&[("margin", "3px 4px 1px 2px")])
    )
}

#[test]
fn test_mixed_important_not_merged() {
    let input = [
        ("margin-top", "3px !important"),
        ("margin-bottom", "1px"),
        ("margin-left", "2px"),
        ("margin-right", "4px"),
    ];
    assert_eq!(
        Merge::default().transform(bare_block(&input)),
        bare_block(&input)
    )
}

#[test]
fn test_all_important_merged() {
    assert_eq!(
        Merge::default().transform(bare_block(&[
            ("margin-top", "3px !important"),
            ("margin-bottom", "3px !important"),
            ("margin-left", "3px !important"),
            ("margin-right", "3px !important"),
        ])),
        bare_block(&[("margin", "3px!important")])
    )
}

#[test]
fn test_compress_font() {
    assert_eq!(
        MergeShortHand::default().transform(bare_block(&[
            ("font-style", "italic"),
            ("font-weight", "bold"),
            ("font-size", ".8em"),
            ("line-height", "1.2"),
            ("font-family", "Arial, sans-serif"),
        ])),
        bare_block(&[("font", "italic bold .8em/1.2 Arial, sans-serif")])
    )
}

#[test]
fn test_compress_background() {
    assert_eq!(
        MergeShortHand::default().transform(bare_block(&[
            ("background-color", "#000"),
            ("background-image", "url(images/bg.gif)"),
            ("background-repeat", "no-repeat"),
            ("background-position", "left top"),
        ])),
        bare_block(&[("background", "#000 url(images/bg.gif) no-repeat left top")])
    )
}

#[test]
fn test_background_important() {
    assert_eq!(
        MergeShortHand::default().transform(bare_block(&[
            ("background-color", "#000 !important"),
        ])),
        bare_block(&[("background", "#000!important")])
    )
}

#[test]
fn test_compress_border() {
    assert_eq!(
        MergeShortHand::default().transform(bare_block(&[
            ("border-width", "1px"),
            ("border-style", "solid"),
            ("border-color", "#000"),
        ])),
        bare_block(&[("border", "1px solid #000")])
    )
}

#[test]
fn test_compress_outline() {
    assert_eq!(
        MergeShortHand::default().transform(bare_block(&[
            ("outline-width", "1px"),
            ("outline-style", "solid"),
            ("outline-color", "#000"),
        ])),
        bare_block(&[("outline", "1px solid #000")])
    )
}

#[test]
fn font_test_blocks() {
    assert_eq!(
        FontTransformer::default().transform_many(CssEntities(vec![
            CssEntity::Block(class_block(
                "test",
                &[(
                    "font",
                    "bold 2.2rem/.9 \"Open Sans Condensed\", sans-serif"
                )],
            )),
            CssEntity::Block(class_block(
                "test",
                &[
                    (
                        "font-family",
                        "\"Helvetica Neue\", Arial, sans-serif, Helvetica"
                    ),
                    ("font-weight", "normal"),
                ],
            )),
        ])),
        CssEntities(vec![
            CssEntity::Block(class_block(
                "test",
                &[(
                    "font",
                    "bold 2.2rem/.9 \"Open Sans Condensed\", sans-serif"
                )],
            )),
            CssEntity::Block(class_block(
                "test",
                &[
                    (
                        "font-family",
                        "\"Helvetica Neue\", Arial, sans-serif, Helvetica"
                    ),
                    ("font-weight", "400"),
                ],
            )),
        ])
    )
}

#[test]
fn merge_blocks_test_blocks() {
    assert_eq!(
        MergeBlocks::default().transform_many(CssEntities(vec![
            CssEntity::Block(class_block(
                "test",
                &[("background-color", "#f64e60 !important")],
            )),
            CssEntity::Block(class_block("test", &[("color", "#f64e60 !important")])),
        ])),
        CssEntities(vec![CssEntity::Block(class_block(
            "test",
            &[
                ("background-color", "#f64e60 !important"),
                ("color", "#f64e60 !important"),
            ],
        ))])
    )
}

#[test]
fn merge_media_test_media() {
    assert_eq!(
        MergeMedia::default().transform_many(CssEntities(vec![
            CssEntity::Media(Media {
                screen: "only screen and (max-width: 992px)".into(),
                entities: CssEntities(vec![CssEntity::Block(class_block("test", &[]))]),
            }),
            CssEntity::Media(Media {
                screen: "only screen and (max-width: 992px)".into(),
                entities: CssEntities(vec![CssEntity::Block(class_block("test2", &[]))]),
            }),
        ])),
        CssEntities(vec![CssEntity::Media(Media {
            screen: "only screen and (max-width:992px)".into(),
            entities: CssEntities(vec![
                CssEntity::Block(class_block("test", &[])),
                CssEntity::Block(class_block("test2", &[])),
            ]),
        })])
    )
}

#[test]
fn write_block() {
    let blocks = css_minify::structure::Blocks(vec![
        Block {
            selectors: Selectors(vec![
                SelectorWithPseudoClasses(Some(Selector::Id("some_id".into())), vec![]),
                SelectorWithPseudoClasses(Some(Selector::Tag("input".into())), vec![]),
            ]),
            parameters: params(&[("padding", "5px 3px"), ("color", "white")]),
        },
        Block {
            selectors: Selectors(vec![
                SelectorWithPseudoClasses(Some(Selector::Id("some_id_2".into())), vec![]),
                SelectorWithPseudoClasses(Some(Selector::Class("class".into())), vec![]),
            ]),
            parameters: params(&[("padding", "5px 4px"), ("color", "black")]),
        },
    ]);
    assert_eq!(
        blocks.to_css(),
        "#some_id,input{padding:5px 3px;color:white}#some_id_2,.class{padding:5px 4px;color:black}"
    )
}

#[test]
fn parameters_operations() {
    let mut p = Parameters::new();
    assert_eq!(p.len(), 0);
    assert_eq!(p.insert("color".into(), "red".into()), None);
    assert_eq!(p.insert("margin".into(), "0".into()), None);
    assert_eq!(
        p.insert("color".into(), "blue".into()),
        Some("red".to_string())
    );
    assert_eq!(p.len(), 2);
    assert_eq!(p.get("color"), Some("blue".to_string()));
    assert_eq!(p.get_index(0), Some(("color".to_string(), "blue".to_string())));
    assert_eq!(p.get_index(1), Some(("margin".to_string(), "0".to_string())));
    assert!(p.contains_key("margin"));
    assert_eq!(p.swap_remove("color"), Some("blue".to_string()));
    assert_eq!(p.get_index(0), Some(("margin".to_string(), "0".to_string())));
    assert_eq!(p.len(), 1);
    assert!(!p.contains_key("color"));
}
