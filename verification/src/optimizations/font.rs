//! Font-weight normalization: on a `font-weight` declaration, `normal`
//! becomes `400`, `bold` becomes `700`, and double quotes are stripped.

use crate::dict::{entries_get, entries_insert};
use crate::structure::{EntriesV, Parameters};
use crate::text::{replace_all, replace_all_str};
use vstd::prelude::*;
use vstd::string::StringExecFns;

verus! {

/// The normalization pass over the declarations that transform font weights.
#[derive(Default, Debug, Clone)]
pub struct FontTransformer;

/// A normalized font-weight value.
pub open spec fn spec_font_weight_value(v: Seq<char>) -> Seq<char> {
    replace_all(replace_all(replace_all(v, "normal"@, "400"@), "bold"@, "700"@), "\""@, ""@)
}

fn font_weight_value(v: &str) -> (r: String)
    ensures
        r@ == spec_font_weight_value(v@),
{
    proof {
        reveal_strlit("normal");
        reveal_strlit("bold");
        reveal_strlit("\"");
    }
    let a = replace_all_str(v, "normal", "400");
    let b = replace_all_str(a.as_str(), "bold", "700");
    replace_all_str(b.as_str(), "\"", "")
}

/// Declarations with the `font-weight` value normalized in place.
pub open spec fn spec_font_params(es: EntriesV) -> EntriesV {
    match entries_get(es, "font-weight"@) {
        Some(v) => entries_insert(es, "font-weight"@, spec_font_weight_value(v)),
        None => es,
    }
}

impl FontTransformer {
    /// Normalize the `font-weight` declaration of one declaration map.
    pub fn transform_parameters(&self, p: Parameters) -> (r: Parameters)
        ensures
            r@ == spec_font_params(p@),
    {
        let mut p = p;
        match p.get("font-weight") {
            Some(v) => {
                let nv = font_weight_value(v.as_str());
                p.insert(String::from_str("font-weight"), nv);
                p
            },
            None => p,
        }
    }
}

} // verus!
