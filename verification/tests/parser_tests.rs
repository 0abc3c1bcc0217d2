use css_minify::optimizations::color::Color;
use css_minify::parsers::at::{
    parse_charset, parse_font_face, parse_import, parse_keyframes, parse_media, parse_ms_viewport,
    parse_namespace, parse_page, parse_supports, parse_viewport,
};
use css_minify::parsers::css_entity::parse_block;
use css_minify::parsers::parameters::{parse_parameter, parse_parameter_map};
use css_minify::parsers::selector::{parse_selector, parse_selectors};
use css_minify::parsers::utils::{parse_comment, parse_useless};
use css_minify::structure::{
    Block, CssEntities, CssEntity, FontFace, KeyframeBlock, KeyframeBlocks, Keyframes, Media,
    MsViewport, Page, Parameters, PseudoClass, Selector, SelectorWithPseudoClasses, Selectors,
    Supports, Viewport,
};
use indexmap::IndexMap;

fn clen(s: &str) -> usize {
    s.chars().count()
}

fn params(pairs: &[(&str, &str)]) -> Parameters {
    let mut tmp: IndexMap<String, String> = IndexMap::new();
    for (k, v) in pairs {
        tmp.insert(k.to_string(), v.to_string());
    }
    Parameters(tmp)
}

fn simple(sel: Selector) -> SelectorWithPseudoClasses {
    SelectorWithPseudoClasses(Some(sel), vec![])
}

#[test]
fn at_test_media() {
    let input = r#"
            @media only screen and (max-width: 992px) {
              .test {
                min-height: 68px; }
            }"#;
    assert_eq!(
        parse_media(input, 0),
        Some((
            clen(input),
            Media {
                screen: "only screen and (max-width: 992px)".into(),
                entities: CssEntities(vec![CssEntity::Block(Block {
                    selectors: Selectors(vec![simple(Selector::Class("test".into()))]),
                    parameters: params(&[("min-height", "68px")]),
                })]),
            }
        ))
    )
}

#[test]
fn test_page() {
    let input = r#"
                @page test {
                    size: a3; }"#;
    assert_eq!(
        parse_page(input, 0),
        Some((
            clen(input),
            Page {
                selectors: Some("test".to_string()),
                parameters: params(&[("size", "a3")]),
            }
        ))
    )
}

#[test]
fn test_page_without_prefix() {
    let input = r#"
                @page {
                    size: a3; }"#;
    assert_eq!(
        parse_page(input, 0),
        Some((
            clen(input),
            Page {
                selectors: None,
                parameters: params(&[("size", "a3")]),
            }
        ))
    )
}

#[test]
fn test_supports() {
    let input = r#"
            @supports (-ms-ime-align: auto) {
              .test {
                min-height: 68px; }
            }"#;
    assert_eq!(
        parse_supports(input, 0),
        Some((
            clen(input),
            Supports {
                conditions: "(-ms-ime-align: auto)".into(),
                entities: CssEntities(vec![CssEntity::Block(Block {
                    selectors: Selectors(vec![simple(Selector::Class("test".into()))]),
                    parameters: params(&[("min-height", "68px")]),
                })]),
            }
        ))
    )
}

#[test]
fn at_test_keyframes() {
    let input = r#"
            @keyframes important1 {
              from { margin-top: 50px; }
              50%  { margin-top: 150px !important; } /* ignored */
              to   { margin-top: 100px; }
            }
    "#;
    let (end, kf) = parse_keyframes(input, 0).unwrap();
    assert_eq!(
        kf,
        Keyframes {
            name: "important1".into(),
            webkit_prefix: false,
            blocks: KeyframeBlocks(vec![
                KeyframeBlock {
                    name: "from".into(),
                    parameters: params(&[("margin-top", "50px")]),
                },
                KeyframeBlock {
                    name: "50%".into(),
                    parameters: params(&[("margin-top", "150px !important")]),
                },
                KeyframeBlock {
                    name: "to".into(),
                    parameters: params(&[("margin-top", "100px")]),
                },
            ]),
        }
    );
    assert_eq!(parse_useless(input, end), clen(input));
}

#[test]
fn at_test_font_face() {
    let input = r#"
            @font-face {
                font-family: "Open Sans";
                src: url(/fonts/OpenSans-Regular-webfont.woff2) format("woff2");
            }"#;
    assert_eq!(
        parse_font_face(input, 0),
        Some((
            clen(input),
            FontFace {
                parameters: params(&[
                    ("font-family", "\"Open Sans\""),
                    (
                        "src",
                        "url(/fonts/OpenSans-Regular-webfont.woff2) format(\"woff2\")"
                    ),
                ]),
            }
        ))
    )
}

#[test]
fn at_test_viewport() {
    let input = r#"
            @viewport {
              min-width: 640px;
              max-width: 800px;
            }"#;
    assert_eq!(
        parse_viewport(input, 0),
        Some((
            clen(input),
            Viewport {
                parameters: params(&[("min-width", "640px"), ("max-width", "800px")]),
            }
        ))
    )
}

#[test]
fn test_ms_viewport() {
    let input = r#"
            @-ms-viewport {
              min-width: 640px;
              max-width: 800px;
            }"#;
    assert_eq!(
        parse_ms_viewport(input, 0),
        Some((
            clen(input),
            MsViewport {
                parameters: params(&[("min-width", "640px"), ("max-width", "800px")]),
            }
        ))
    )
}

#[test]
fn at_test_charset() {
    let input = "@charset \"UTF-8\";";
    let (end, c) = parse_charset(input, 0).unwrap();
    assert_eq!(c.charset, "\"UTF-8\"".to_string());
    assert_eq!(end, clen(input));
}

#[test]
fn at_test_namespace() {
    let input = "@namespace svg url(http://www.w3.org/2000/svg);";
    let (end, n) = parse_namespace(input, 0).unwrap();
    assert_eq!(n.prefix, Some("svg".to_string()));
    assert_eq!(n.url, "url(http://www.w3.org/2000/svg)".to_string());
    assert_eq!(end, clen(input));
}

#[test]
fn test_namespace_without_prefix() {
    let input = "@namespace url(http://www.w3.org/2000/svg);";
    let (end, n) = parse_namespace(input, 0).unwrap();
    assert_eq!(n.prefix, None);
    assert_eq!(n.url, "url(http://www.w3.org/2000/svg)".to_string());
    assert_eq!(end, clen(input));
}

#[test]
fn at_test_import() {
    let input = "@import url('landscape.css') screen and (orientation:landscape);";
    let (end, i) = parse_import(input, 0).unwrap();
    assert_eq!(i.url, "url('landscape.css')".to_string());
    assert_eq!(
        i.media_queries,
        Some("screen and (orientation:landscape)".to_string())
    );
    assert_eq!(end, clen(input));
}

#[test]
fn test_import_url() {
    let input = "@import url('landscape.css');";
    let (end, i) = parse_import(input, 0).unwrap();
    assert_eq!(i.url, "url('landscape.css')".to_string());
    assert_eq!(i.media_queries, None);
    assert_eq!(end, clen(input));
}

#[test]
fn block_test_block() {
    let input = r#"
                #some_id, input {
                    padding: 5px 3px; /* Mega comment */
                    color: white;
                }

            "#;
    let (end, block) = parse_block(input, 0).unwrap();
    assert_eq!(
        block,
        Block {
            selectors: Selectors(vec![
                simple(Selector::Id("some_id".into())),
                simple(Selector::Tag("input".into())),
            ]),
            parameters: params(&[("padding", "5px 3px"), ("color", "white")]),
        }
    );
    assert_eq!(parse_useless(input, end), clen(input));
}

#[test]
fn test_block_empty() {
    let input = r#"
                #some_id, input {
                    padding: 5px 3px; /* Mega comment */
                    color: white
                }

            "#;
    let (end, block) = parse_block(input, 0).unwrap();
    assert_eq!(
        block,
        Block {
            selectors: Selectors(vec![
                simple(Selector::Id("some_id".into())),
                simple(Selector::Tag("input".into())),
            ]),
            parameters: params(&[("padding", "5px 3px"), ("color", "white")]),
        }
    );
    assert_eq!(parse_useless(input, end), clen(input));
}

#[test]
fn test_selector() {
    assert_eq!(
        parse_selector("#some_id", 0),
        Some((8, Selector::Id("some_id".into())))
    );
    assert_eq!(
        parse_selector(".some_class", 0),
        Some((11, Selector::Class("some_class".into())))
    );
    assert_eq!(
        parse_selector("input", 0),
        Some((5, Selector::Tag("input".into())))
    );
}

#[test]
fn test_selectors() {
    let input = "#some_id, .some_class, input";
    assert_eq!(
        parse_selectors(input, 0),
        Some((
            clen(input),
            Selectors(vec![
                simple(Selector::Id("some_id".into())),
                simple(Selector::Class("some_class".into())),
                simple(Selector::Tag("input".into())),
            ])
        ))
    );
}

#[test]
fn test_selectors_with_pc_without_params() {
    let input = "#some_id:only-child";
    assert_eq!(
        parse_selectors(input, 0),
        Some((
            clen(input),
            Selectors(vec![SelectorWithPseudoClasses(
                Some(Selector::Id("some_id".into())),
                vec![PseudoClass {
                    name: "only-child".to_string(),
                    params: None,
                    next: None,
                }]
            )])
        ))
    );
}

#[test]
fn test_selectors_with_pc_with_params() {
    let input = "#some_id:nth-child(4n)";
    assert_eq!(
        parse_selectors(input, 0),
        Some((
            clen(input),
            Selectors(vec![SelectorWithPseudoClasses(
                Some(Selector::Id("some_id".into())),
                vec![PseudoClass {
                    name: "nth-child".to_string(),
                    params: Some("4n".to_string()),
                    next: None,
                }]
            )])
        ))
    );
}

#[test]
fn test_pc_without_selector() {
    let input = ":is(nav, .posts)";
    assert_eq!(
        parse_selectors(input, 0),
        Some((
            clen(input),
            Selectors(vec![SelectorWithPseudoClasses(
                None,
                vec![PseudoClass {
                    name: "is".to_string(),
                    params: Some("nav, .posts".to_string()),
                    next: None,
                }]
            )])
        ))
    );
}

#[test]
fn test_pc_selector() {
    let input = ":is(.test) a";
    assert_eq!(
        parse_selectors(input, 0),
        Some((
            clen(input),
            Selectors(vec![SelectorWithPseudoClasses(
                None,
                vec![PseudoClass {
                    name: "is".to_string(),
                    params: Some(".test".to_string()),
                    next: Some("a".to_string()),
                }]
            )])
        ))
    );
}

#[test]
fn test_pc_double_dots() {
    let input = "::is(.test) a";
    assert_eq!(
        parse_selectors(input, 0),
        Some((
            clen(input),
            Selectors(vec![SelectorWithPseudoClasses(
                None,
                vec![PseudoClass {
                    name: "is".to_string(),
                    params: Some(".test".to_string()),
                    next: Some("a".to_string()),
                }]
            )])
        ))
    );
}

#[test]
fn test_pc_nulti() {
    let input = "a:not([href]):not([tabindex])";
    assert_eq!(
        parse_selectors(input, 0),
        Some((
            clen(input),
            Selectors(vec![SelectorWithPseudoClasses(
                Some(Selector::Tag("a".into())),
                vec![
                    PseudoClass {
                        name: "not".to_string(),
                        params: Some("[href]".to_string()),
                        next: None,
                    },
                    PseudoClass {
                        name: "not".to_string(),
                        params: Some("[tabindex]".to_string()),
                        next: None,
                    }
                ]
            )])
        ))
    );
}

#[test]
fn test_parameter() {
    let input = "margin-top: 32px;";
    assert_eq!(
        parse_parameter(input, 0),
        Some((clen(input), ("margin-top".to_string(), "32px".to_string())))
    )
}

#[test]
fn test_parameters() {
    let input = "
                margin-top: 32px;
                margin-bottom: 32px;
                margin-left: 32px; /* lazyefix */

                float: left; /* lazyefix */
                ";
    let (end, map) = parse_parameter_map(input, 0);
    assert_eq!(
        map,
        params(&[
            ("margin-top", "32px"),
            ("margin-bottom", "32px"),
            ("margin-left", "32px"),
            ("float", "left"),
        ])
    );
    assert_eq!(parse_useless(input, end), clen(input));
}

#[test]
fn test_parameters_important() {
    let input = "
                background-color: #f64e60 !important;
                ";
    let (end, map) = parse_parameter_map(input, 0);
    assert_eq!(map, params(&[("background-color", "#f64e60 !important")]));
    assert_eq!(parse_useless(input, end), clen(input));
}

#[test]
fn test_parameters_double_dot() {
    let input = "
                display: inline-block;;
                font-size: 16px;
                ";
    let (end, _) = parse_parameter_map(input, 0);
    assert!(parse_useless(input, end) != clen(input));
}

#[test]
fn test_parameters_content() {
    let input = "
                content: \";\";
                ";
    let (end, map) = parse_parameter_map(input, 0);
    assert_eq!(map, params(&[("content", "\";\"")]));
    assert_eq!(parse_useless(input, end), clen(input));
}

#[test]
fn test_parameters_url() {
    let input = "
                background: url(';');
                ";
    let (end, map) = parse_parameter_map(input, 0);
    assert_eq!(map, params(&[("background", "url(';')")]));
    assert_eq!(parse_useless(input, end), clen(input));
}

#[test]
fn test_comment() {
    let input = "/* ***MEGA COMMENT*** */";
    assert_eq!(
        parse_comment(input, 0),
        Some((clen(input), " ***MEGA COMMENT*** ".to_string()))
    )
}

#[test]
fn test_rgb() {
    let input = "rgb(255, 255, /* lol */ 255 )";
    assert_eq!(
        css_minify::optimizations::color::parse_rgb(input),
        Some((clen(input), Color("#fff".into())))
    )
}

#[test]
fn test_small_rgb() {
    let input = "rgb(4, 120, 87)";
    assert_eq!(
        css_minify::optimizations::color::parse_rgb(input),
        Some((clen(input), Color("#047857".into())))
    )
}

#[test]
fn test_hex() {
    assert_eq!(
        css_minify::optimizations::color::parse_hex("#fff"),
        Some((4, Color("#fff".into())))
    )
}

#[test]
fn block_test_blocks() {
    let input = r#"
                #some_id, input {
                    padding: 5px 3px; /* Mega comment */
                    color: white;
                }

                #some_id_2, .class {
                    padding: 5px 4px; /* Mega comment */
                    color: black;
                }
            "#;
    assert_eq!(
        css_minify::parsers::css_entity::parse_css(input),
        Ok(CssEntities(vec![
            CssEntity::Block(Block {
                selectors: Selectors(vec![
                    simple(Selector::Id("some_id".into())),
                    simple(Selector::Tag("input".into())),
                ]),
                parameters: params(&[("padding", "5px 3px"), ("color", "white")]),
            }),
            CssEntity::Block(Block {
                selectors: Selectors(vec![
                    simple(Selector::Id("some_id_2".into())),
                    simple(Selector::Class("class".into())),
                ]),
                parameters: params(&[("padding", "5px 4px"), ("color", "black")]),
            }),
        ]))
    );
}

#[test]
fn media_test_media() {
    let input = r#"@media only screen and (max-width: 992px) {
              .test {
                min-height: 68px; }
            }"#;
    assert_eq!(
        parse_media(input, 0),
        Some((
            clen(input),
            Media {
                screen: "only screen and (max-width: 992px)".into(),
                entities: CssEntities(vec![CssEntity::Block(Block {
                    selectors: Selectors(vec![simple(Selector::Class("test".into()))]),
                    parameters: params(&[("min-height", "68px")]),
                })]),
            }
        ))
    )
}
