//! The table that names compression codes. It is read once from a JSON list
//! of `[code, name]` pairs and handed to whatever renders a format chunk.
use vstd::prelude::*;

use std::collections::BTreeMap;

verus! {

broadcast use vstd::laws_cmp::group_laws_cmp;

/// What `serde_json` reads from the text as a list of `[code, name]` pairs,
/// or `None` where the text is not such a list.
pub uninterp spec fn json_code_pairs(json: Seq<char>) -> Option<Seq<(u16, Seq<char>)>>;

/// Relies on `serde_json::from_str::<Vec<(u16, String)>>`: the pairs of a
/// JSON list of `[code, name]` arrays, in order, or an error.
#[verifier::external_body]
fn parse_code_pairs(json: &str) -> (r: Option<Vec<(u16, String)>>)
    ensures
        match json_code_pairs(json@) {
            None => r is None,
            Some(ps) => r is Some && r->Some_0@.map_values(|p: (u16, String)| (p.0, p.1@)) == ps,
        },
{
    serde_json::from_str::<Vec<(u16, String)>>(json).ok()
}

/// The map that the pairs give, a later pair for a code replacing an earlier
/// one.
pub open spec fn pairs_map(ps: Seq<(u16, Seq<char>)>) -> Map<u16, Seq<char>>
    decreases ps.len(),
{
    if ps.len() == 0 {
        Map::empty()
    } else {
        pairs_map(ps.drop_last()).insert(ps.last().0, ps.last().1)
    }
}

/// Names of compression codes.
pub struct CompressionCodes {
    names: BTreeMap<u16, String>,
}

impl View for CompressionCodes {
    type V = Map<u16, Seq<char>>;

    closed spec fn view(&self) -> Map<u16, Seq<char>> {
        self.names@.map_values(|s: String| s@)
    }
}

/// The name shown for a code: its name in the table, or "UNKNOWN".
pub open spec fn code_name(codes: Map<u16, Seq<char>>, code: u16) -> Seq<char> {
    if codes.contains_key(code) {
        codes[code]
    } else {
        "UNKNOWN"@
    }
}

impl CompressionCodes {
    /// A table that names no code.
    pub fn new() -> (r: Self)
        ensures
            r@ == Map::<u16, Seq<char>>::empty(),
    {
        let r = CompressionCodes { names: BTreeMap::new() };
        assert(r@ =~= Map::<u16, Seq<char>>::empty());
        r
    }

    /// The table of the pairs, a later pair for a code replacing an earlier
    /// one.
    pub fn from_pairs(pairs: Vec<(u16, String)>) -> (r: Self)
        ensures
            r@ == pairs_map(pairs@.map_values(|p: (u16, String)| (p.0, p.1@))),
    {
        let ghost ps = pairs@.map_values(|p: (u16, String)| (p.0, p.1@));
        let mut names: BTreeMap<u16, String> = BTreeMap::new();
        let mut i: usize = 0;
        assert(names@.map_values(|s: String| s@) =~= pairs_map(ps.take(0)));
        while i < pairs.len()
            invariant
                i <= pairs.len(),
                ps == pairs@.map_values(|p: (u16, String)| (p.0, p.1@)),
                names@.map_values(|s: String| s@) == pairs_map(ps.take(i as int)),
            decreases pairs.len() - i,
        {
            let code = pairs[i].0;
            let name = pairs[i].1.clone();
            let ghost before = names@;
            names.insert(code, name);
            assert(ps.take(i + 1).drop_last() =~= ps.take(i as int));
            assert(names@.map_values(|s: String| s@) =~= pairs_map(ps.take(i as int)).insert(
                code,
                pairs@[i as int].1@,
            ));
            i = i + 1;
        }
        assert(ps.take(pairs.len() as int) =~= ps);
        CompressionCodes { names }
    }

    /// The table of a JSON list of `[code, name]` pairs, or `None` where the
    /// text is not such a list.
    pub fn from_json(json: &str) -> (r: Option<Self>)
        ensures
            match json_code_pairs(json@) {
                None => r is None,
                Some(ps) => r is Some && r->Some_0@ == pairs_map(ps),
            },
    {
        match parse_code_pairs(json) {
            None => None,
            Some(pairs) => Some(CompressionCodes::from_pairs(pairs)),
        }
    }
}

/// The name of a compression code, or "UNKNOWN" where the table has none.
pub fn get_compression_code_str(codes: &CompressionCodes, compression_code: u16) -> (r: String)
    ensures
        r@ == code_name(codes@, compression_code),
{
    match codes.names.get(&compression_code) {
        Some(s) => s.clone(),
        None => String::from_str("UNKNOWN"),
    }
}

} // verus!
