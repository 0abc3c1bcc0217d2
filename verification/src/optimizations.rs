//! The transform pipeline: level-selected, composable rewriters over the
//! document tree, and the minifier that runs parse, rewrites, and print.

pub mod color;
pub mod font;
pub mod merge_blocks;
pub mod merge_m_n_p;
pub mod merge_media;
pub mod merge_shorthand;
pub mod transformer;

use crate::optimizations::font::FontTransformer;
use crate::optimizations::merge_blocks::{MergeBlocks, mb_doc};
use crate::optimizations::merge_m_n_p::Merge;
use crate::optimizations::merge_media::{MergeMedia, mm_doc};
use crate::optimizations::merge_shorthand::MergeShortHand;
use crate::optimizations::transformer::{
    DeclRewriter, NameTransform, RewriterV, Transformer, TransformerParameterFn, ValueTransform,
    rewrite_doc, rewrite_many,
};
use crate::parsers::css_entity::{parse_css, spec_parse_css};
use crate::printer::render_doc;
use crate::text::{dec_digits, str_eq};
use vstd::prelude::*;
use vstd::string::StringExecFns;

verus! {

/// The transforming level: higher levels switch on more rewrites.
#[derive(Ord, PartialOrd, Eq, PartialEq, Debug, Copy, Clone)]
pub enum Level {
    /// Parse and print only.
    Zero,
    /// Value, name, color and font-weight normalization.
    One,
    /// Box-sides and shorthand merges as well.
    Two,
    /// Duplicate-block and duplicate-media merges as well; ordering may
    /// change.
    Three,
}

pub open spec fn level_num(l: Level) -> int {
    match l {
        Level::Zero => 0,
        Level::One => 1,
        Level::Two => 2,
        Level::Three => 3,
    }
}

impl Level {
    /// The level as a number from zero to three.
    pub fn num(&self) -> (r: u8)
        ensures
            r as int == level_num(*self),
    {
        match self {
            Level::Zero => 0,
            Level::One => 1,
            Level::Two => 2,
            Level::Three => 3,
        }
    }

    /// The level named by a decimal digit text.
    pub fn from_text(s: &str) -> (r: Result<Level, ParseLevelError>)
        ensures
            s@ == "0"@ ==> r == Result::<Level, ParseLevelError>::Ok(Level::Zero),
            s@ == "1"@ ==> r == Result::<Level, ParseLevelError>::Ok(Level::One),
            s@ == "2"@ ==> r == Result::<Level, ParseLevelError>::Ok(Level::Two),
            s@ == "3"@ ==> r == Result::<Level, ParseLevelError>::Ok(Level::Three),
            s@ != "0"@ && s@ != "1"@ && s@ != "2"@ && s@ != "3"@ ==> r == Result::<
                Level,
                ParseLevelError,
            >::Err(ParseLevelError),
    {
        proof {
            reveal_strlit("0");
            reveal_strlit("1");
            reveal_strlit("2");
            reveal_strlit("3");
            assert("0"@[0] != "1"@[0] && "0"@[0] != "2"@[0] && "0"@[0] != "3"@[0] && "1"@[0]
                != "2"@[0] && "1"@[0] != "3"@[0] && "2"@[0] != "3"@[0]);
        }
        if str_eq(s, "0") {
            Ok(Level::Zero)
        } else if str_eq(s, "1") {
            Ok(Level::One)
        } else if str_eq(s, "2") {
            Ok(Level::Two)
        } else if str_eq(s, "3") {
            Ok(Level::Three)
        } else {
            Err(ParseLevelError)
        }
    }
}

impl Default for Level {
    fn default() -> (r: Self)
        ensures
            r == Level::One,
    {
        Level::One
    }
}

impl core::str::FromStr for Level {
    type Err = ParseLevelError;

    fn from_str(s: &str) -> Result<Self, ParseLevelError> {
        Level::from_text(s)
    }
}

/// The error of reading a level from text.
#[derive(Default, Copy, Clone, PartialEq, Eq, Structural, Debug)]
pub struct ParseLevelError;

impl ParseLevelError {
    /// A human description of the error.
    pub fn message(&self) -> (r: String)
        ensures
            r@ == "Input must be number from 0 to 3 values"@,
    {
        String::from_str("Input must be number from 0 to 3 values")
    }
}

/// Number of newlines among the first `p` characters.
pub open spec fn count_nl(s: Seq<char>, p: int) -> int
    decreases p,
{
    if p <= 0 || p > s.len() {
        0
    } else {
        count_nl(s, p - 1) + if s[p - 1] == '\n' {
            1int
        } else {
            0int
        }
    }
}

/// The reported line of a failure at position `p`: one more than the line
/// count of the parsed prefix, saturated at the largest machine integer.
pub open spec fn report_line(s: Seq<char>, p: int) -> int {
    let raw = count_nl(s, p) + (if 0 < p <= s.len() && s[p - 1] != '\n' {
        1int
    } else {
        0int
    }) + 1;
    if raw > usize::MAX {
        usize::MAX as int
    } else {
        raw
    }
}

proof fn lemma_count_nl(s: Seq<char>, p: int)
    requires
        0 <= p,
    ensures
        0 <= count_nl(s, p) <= p,
    decreases p,
{
    if p > 0 && p <= s.len() {
        lemma_count_nl(s, p - 1);
    }
}

fn report_line_exec(s: &str, p: usize) -> (r: usize)
    requires
        p <= s@.len(),
    ensures
        r as int == report_line(s@, p as int),
{
    proof {
        lemma_count_nl(s@, p as int);
    }
    let mut count: usize = 0;
    let mut i: usize = 0;
    while i < p
        invariant
            i <= p <= s@.len(),
            count == count_nl(s@, i as int),
            count <= i,
        decreases p - i,
    {
        if s.get_char(i) == '\n' {
            count += 1;
        }
        i += 1;
    }
    let extra: usize = if 0 < p && s.get_char(p - 1) != '\n' {
        1
    } else {
        0
    };
    if count <= usize::MAX - 2 {
        count + extra + 1
    } else {
        usize::MAX
    }
}

/// A parse failure: the one-based line of the offending position.
#[derive(Copy, Clone, PartialEq, Eq, Structural, Debug)]
pub struct MError {
    pub line: usize,
}

impl MError {
    /// A human description of the failure.
    pub fn message(&self) -> (r: String)
        ensures
            r@ == "Invalid block at line "@ + dec_digits(self.line as int),
    {
        let mut out = String::from_str("Invalid block at line ");
        crate::text::append_decimal(&mut out, self.line);
        out
    }
}

/// The rewrites the default minifier registers, in order: color
/// canonicalization, value normalization, name lowercasing.
pub open spec fn default_param_fns() -> Seq<TransformerParameterFn> {
    seq![
        TransformerParameterFn::Value(ValueTransform::Color),
        TransformerParameterFn::Value(ValueTransform::Normalize),
        TransformerParameterFn::Name(NameTransform::Lowercase),
    ]
}

/// The whole pipeline on a parsed document: at level three the block and
/// media merges; at level two and above the box-sides and shorthand merges;
/// at level one and above the registered rewrites and the font-weight
/// normalization; then the print.
pub open spec fn spec_minify(
    fns: Seq<TransformerParameterFn>,
    s: Seq<char>,
    level: int,
) -> Result<Seq<char>, int> {
    match spec_parse_css(s) {
        Err(pos) => Err(report_line(s, pos)),
        Ok(doc) => {
            let d3 = if level == 3 {
                mm_doc(mb_doc(doc))
            } else {
                doc
            };
            let d2 = if level >= 2 {
                rewrite_doc(
                    RewriterV::Shorthand,
                    rewrite_doc(RewriterV::BoxSides, d3),
                )
            } else {
                d3
            };
            let d1 = if level >= 1 {
                rewrite_doc(
                    RewriterV::FontWeight,
                    rewrite_doc(RewriterV::Registered(fns), d2),
                )
            } else {
                d2
            };
            Ok(render_doc(d1))
        },
    }
}

/// The minifier: it holds the registered per-declaration rewrites and the
/// level-selected merge passes.
pub struct Minifier {
    transformer: Transformer,
    merge_m_n_p: Merge,
    merge_shorthand: MergeShortHand,
    media: MergeMedia,
    blocks: MergeBlocks,
    font: FontTransformer,
}

impl View for Minifier {
    type V = Seq<TransformerParameterFn>;

    closed spec fn view(&self) -> Seq<TransformerParameterFn> {
        self.transformer@
    }
}

impl Default for Minifier {
    /// The minifier with the standard rewrites registered.
    fn default() -> (r: Self)
        ensures
            r@ == default_param_fns(),
    {
        let mut transformer = Transformer::default();
        transformer.register_parameter(
            TransformerParameterFn::Value(ValueTransform::Color),
        );
        transformer.register_parameter(
            TransformerParameterFn::Value(ValueTransform::Normalize),
        );
        transformer.register_parameter(
            TransformerParameterFn::Name(NameTransform::Lowercase),
        );
        proof {
            assert(transformer@ =~= default_param_fns());
        }
        Minifier {
            transformer,
            merge_m_n_p: Merge {},
            merge_shorthand: MergeShortHand {},
            media: MergeMedia {},
            blocks: MergeBlocks {},
            font: FontTransformer {},
        }
    }
}

impl Minifier {
    /// Minify a stylesheet at the given level: parse it, run the level's
    /// rewrites, and print the result; a parse failure names the offending
    /// line.
    pub fn minify(&mut self, input: &str, level: Level) -> (r: Result<String, MError>)
        ensures
            final(self)@ == old(self)@,
            match r {
                Ok(out) => spec_minify(old(self)@, input@, level_num(level)) == Result::<
                    Seq<char>,
                    int,
                >::Ok(out@),
                Err(e) => spec_minify(old(self)@, input@, level_num(level)) == Result::<
                    Seq<char>,
                    int,
                >::Err(e.line as int),
            },
    {
        let n = level.num();
        match parse_css(input) {
            Err(pos) => Err(MError { line: report_line_exec(input, pos) }),
            Ok(doc) => {
                let mut doc = doc;
                if n == 3 {
                    doc = self.blocks.transform_many(doc);
                    doc = self.media.transform_many(doc);
                }
                if n >= 2 {
                    doc = rewrite_many(&DeclRewriter::BoxSides, doc);
                    doc = rewrite_many(&DeclRewriter::Shorthand, doc);
                }
                if n >= 1 {
                    doc = rewrite_many(&DeclRewriter::Registered(&self.transformer), doc);
                    doc = rewrite_many(&DeclRewriter::FontWeight, doc);
                }
                Ok(doc.to_css())
            },
        }
    }
}

} // verus!
