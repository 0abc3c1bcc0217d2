use css_minify::optimizations::{Level, Minifier};

fn minify(input: &str, level: Level) -> Result<String, css_minify::optimizations::MError> {
    Minifier::default().minify(input, level)
}

#[test]
fn test_minify() {
    assert_eq!(
        Minifier::default().minify(
            r#"
                #some_id, input {
                    padding: 5px 3px; /* Mega comment */
                    color: white;
                }


                /* this is are test id */
                #some_id_2, .class {
                    padding: 5px 4px; /* Mega comment */
                    Color: rgb(255, 255, 255);
                    font-weight: bold;
                }
            "#,
            Level::Three
        ),
        Ok("#some_id,input{padding:5px 3px;color:white}#some_id_2,.class{padding:5px 4px;color:#fff;font-weight:700}".into())
    )
}

#[test]
fn test_minify_invalid_css() {
    assert_eq!(
        Minifier::default()
            .minify(
                r#"
                #some_id, input {
                    padding: 5px 3px; /* Mega comment */
                    color: white;
                }} /* sasd */


                /* this is are test id */
                #some_id_2, .class {
                    padding: 5px 4px; /* Mega comment */
                    Color: rgb(255, 255, 255);
                }
            "#,
                Level::Three
            )
            .unwrap_err()
            .message(),
        "Invalid block at line 6"
    )
}

#[test]
fn round_trip_idempotent_all_levels() {
    let input = r#"
        @charset "utf-8";
        #some_id, input:hover {
            padding: 5px 3px;
            color: white;
            margin-top: 0.5em;
        }
        .a { margin-top:3px; margin-right:4px; margin-bottom:1px; margin-left:2px; }
        @media only screen and (max-width: 992px) {
            .test { min-height: 68px; }
        }
        @media only screen and (max-width: 992px) {
            .test2 { color: rgb(255, 0, 0); }
        }
        .a { display: block; }
    "#;
    for level in [Level::Zero, Level::One, Level::Two, Level::Three] {
        let once = minify(input, level).unwrap();
        let twice = minify(&once, level).unwrap();
        assert_eq!(once, twice);
    }
}

#[test]
fn level_monotonic_lengths() {
    let input = r#"
        .a { margin-top:3px; margin-right:4px; margin-bottom:1px; margin-left:2px; }
        .a { color: rgb(255, 255, 255); }
        @media only screen and (max-width: 992px) { .t { border-width: 1px; border-style: solid; border-color: #AABBCC; } }
        @media only screen and (max-width: 992px) { .u { padding: 0.25em; } }
    "#;
    let l0 = minify(input, Level::Zero).unwrap().len();
    let l1 = minify(input, Level::One).unwrap().len();
    let l2 = minify(input, Level::Two).unwrap().len();
    let l3 = minify(input, Level::Three).unwrap().len();
    assert!(l3 <= l2 && l2 <= l1 && l1 <= l0);
}

#[test]
fn semicolon_inside_url_and_string_does_not_split() {
    let input = ".x { background: url(';'); content: \";\" }";
    assert_eq!(
        minify(input, Level::Zero),
        Ok(".x{background:url(';');content:\";\"}".into())
    );
}

#[test]
fn media_with_nested_blocks_round_trips() {
    let input = "@media only screen and (max-width: 992px) { .a { color: red; } .b { margin: 0; } }";
    let once = minify(input, Level::Zero).unwrap();
    assert_eq!(
        once,
        "@media only screen and (max-width: 992px){.a{color:red}.b{margin:0}}"
    );
    assert_eq!(minify(&once, Level::Zero).unwrap(), once);
}

#[test]
fn declaration_without_trailing_semicolon_parses() {
    assert_eq!(
        minify(".a { color: red }", Level::Zero),
        Ok(".a{color:red}".into())
    );
}

#[test]
fn pseudo_chain_with_trailer() {
    let input = ":is(.x) a { color: red; }";
    assert_eq!(minify(input, Level::Zero), Ok(":is(.x) a {color:red}".into()));
}

#[test]
fn margins_merge_at_level_two() {
    assert_eq!(
        minify(
            ".a { margin-top:3px; margin-right:4px; margin-bottom:1px; margin-left:2px; }",
            Level::Two
        ),
        Ok(".a{margin:3px 4px 1px 2px}".into())
    );
    assert_eq!(
        minify(
            ".a { margin-top:3px; margin-right:3px; margin-bottom:3px; margin-left:3px; }",
            Level::Two
        ),
        Ok(".a{margin:3px}".into())
    );
}

#[test]
fn background_important_merges_at_level_two() {
    assert_eq!(
        minify(".b { background-color: #000 !important; }", Level::Two),
        Ok(".b{background:#000!important}".into())
    );
}

#[test]
fn duplicate_media_merge_at_level_three() {
    let input = r#"
        @media only screen and (max-width: 992px) { .test { color: red; } }
        @media only screen and (max-width: 992px) { .test2 { color: blue; } }
    "#;
    assert_eq!(
        minify(input, Level::Three),
        Ok("@media only screen and (max-width:992px){.test{color:red}.test2{color:blue}}".into())
    );
}

#[test]
fn rgb_to_hex_at_level_one() {
    assert_eq!(
        minify("#a { color: rgb(4,120,87); }", Level::One),
        Ok("#a{color:#047857}".into())
    );
}

#[test]
fn double_semicolon_is_parse_error() {
    let err = minify(".x{display:block;;}", Level::Zero).unwrap_err();
    assert_eq!(err.line, 1);
    assert_eq!(err.message(), "Invalid block at line 1");
}

#[test]
fn zero_units_compressed_at_level_one() {
    assert_eq!(
        minify(".a { margin: 0px 0.5em; }", Level::One),
        Ok(".a{margin:0 .5em}".into())
    );
}

#[test]
fn level_from_text() {
    assert_eq!(Level::from_text("0"), Ok(Level::Zero));
    assert_eq!(Level::from_text("1"), Ok(Level::One));
    assert_eq!(Level::from_text("2"), Ok(Level::Two));
    assert_eq!(Level::from_text("3"), Ok(Level::Three));
    assert!(Level::from_text("4").is_err());
    assert_eq!(
        Level::from_text("x").unwrap_err().message(),
        "Input must be number from 0 to 3 values"
    );
    assert_eq!(Level::default(), Level::One);
}

#[test]
fn unknown_color_left_alone() {
    assert_eq!(
        minify(".a { color: chartreuse; }", Level::One),
        Ok(".a{color:chartreuse}".into())
    );
}

#[test]
fn unknown_at_rule_is_parse_error() {
    assert!(minify("@unknown thing { }", Level::Zero).is_err());
}

#[test]
fn keyframes_round_trip() {
    let input = r#"
        @-webkit-keyframes spin {
            from { transform: rotate(0deg); }
            to { transform: rotate(360deg); }
        }
    "#;
    assert_eq!(
        minify(input, Level::Zero),
        Ok("@-webkit-keyframes spin{from{transform:rotate(0deg)}to{transform:rotate(360deg)}}".into())
    );
}

#[test]
fn selectors_sorted_in_output() {
    assert_eq!(
        minify("input, #a, .b { color: red; }", Level::Zero),
        Ok("#a,.b,input{color:red}".into())
    );
}

#[test]
fn duplicate_blocks_merge_at_level_three() {
    assert_eq!(
        minify(
            ".a { color: red; } .b { color: green; } .a { color: blue; margin: 0; }",
            Level::Three
        ),
        Ok(".a{color:blue;margin:0}.b{color:green}".into())
    );
}
