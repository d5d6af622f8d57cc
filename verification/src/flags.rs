//! Translation of `|`-delimited flag names into the engine's bitmask.
//!
//! The set of recognized names is closed: each name maps to one bit pattern
//! of the engine's wire format, and unrecognized names are dropped without
//! error.

use vstd::prelude::*;
use crate::text::{spec_split, split_on, str_eq};

verus! {

/// Enqueue one destination per source when copying several items.
pub const FOF_MULTIDESTFILES: u32 = 0x1;
/// Let the drop point, not the operation, pick the destination on conflicts.
pub const FOF_CONFIRMMOUSE: u32 = 0x2;
/// Do not show a progress window.
pub const FOF_SILENT: u32 = 0x4;
/// Give the new item a fresh name when the destination name is taken.
pub const FOF_RENAMEONCOLLISION: u32 = 0x8;
/// Answer every confirmation prompt with "yes to all".
pub const FOF_NOCONFIRMATION: u32 = 0x10;
/// Hand back a name-mapping handle for renamed items.
pub const FOF_WANTMAPPINGHANDLE: u32 = 0x20;
/// Allow the operation to be undone.
pub const FOF_ALLOWUNDO: u32 = 0x40;
/// Operate on files only when a wildcard names both files and folders.
pub const FOF_FILESONLY: u32 = 0x80;
/// Show a progress window without the names of the items.
pub const FOF_SIMPLEPROGRESS: u32 = 0x100;
/// Create needed destination folders without asking.
pub const FOF_NOCONFIRMMKDIR: u32 = 0x200;
/// Do not show error dialogs.
pub const FOF_NOERRORUI: u32 = 0x400;
/// Do not copy the items' security attributes.
pub const FOF_NOCOPYSECURITYATTRIBS: u32 = 0x800;
/// Operate on the named folders only, not on their contents.
pub const FOF_NORECURSION: u32 = 0x1000;
/// Leave files connected to the named ones alone.
pub const FOF_NO_CONNECTED_ELEMENTS: u32 = 0x2000;
/// Warn when a delete bypasses the recycle bin.
pub const FOF_WANTNUKEWARNING: u32 = 0x4000;
/// Do not descend into reparse points.
pub const FOF_NORECURSEREPARSE: u32 = 0x8000;
/// Suppress every dialog: silent, no confirmation, no error UI, no mkdir prompt.
pub const FOF_NO_UI: u32 = 0x614;

/// The bit value of a recognized flag name, `None` for any other token.
pub open spec fn spec_flag_value(t: Seq<char>) -> Option<u32> {
    if t == "ALLOWUNDO"@ {
        Some(FOF_ALLOWUNDO)
    } else if t == "CONFIRMMOUSE"@ {
        Some(FOF_CONFIRMMOUSE)
    } else if t == "FILESONLY"@ {
        Some(FOF_FILESONLY)
    } else if t == "MULTIDESTFILES"@ {
        Some(FOF_MULTIDESTFILES)
    } else if t == "NOCONFIRMATION"@ {
        Some(FOF_NOCONFIRMATION)
    } else if t == "NOCONFIRMMKDIR"@ {
        Some(FOF_NOCONFIRMMKDIR)
    } else if t == "NO_CONNECTED_ELEMENTS"@ {
        Some(FOF_NO_CONNECTED_ELEMENTS)
    } else if t == "NOCOPYSECURITYATTRIBS"@ {
        Some(FOF_NOCOPYSECURITYATTRIBS)
    } else if t == "NOERRORUI"@ {
        Some(FOF_NOERRORUI)
    } else if t == "NORECURSEREPARSE"@ {
        Some(FOF_NORECURSEREPARSE)
    } else if t == "NORECURSION"@ {
        Some(FOF_NORECURSION)
    } else if t == "NO_UI"@ {
        Some(FOF_NO_UI)
    } else if t == "RENAMEONCOLLISION"@ {
        Some(FOF_RENAMEONCOLLISION)
    } else if t == "SILENT"@ {
        Some(FOF_SILENT)
    } else if t == "SIMPLEPROGRESS"@ {
        Some(FOF_SIMPLEPROGRESS)
    } else if t == "WANTMAPPINGHANDLE"@ {
        Some(FOF_WANTMAPPINGHANDLE)
    } else if t == "WANTNUKEWARNING"@ {
        Some(FOF_WANTNUKEWARNING)
    } else {
        None
    }
}

/// Whether `t` is a recognized flag name.
pub open spec fn recognized(t: Seq<char>) -> bool {
    spec_flag_value(t) is Some
}

/// The contribution of one token to the bitmask: its bit value if
/// recognized, nothing otherwise.
pub open spec fn flag_bits(t: Seq<char>) -> u32 {
    match spec_flag_value(t) {
        Some(v) => v,
        None => 0u32,
    }
}

/// The bitmask of a token sequence: the OR of the bit values of its
/// recognized tokens.
pub open spec fn spec_translate_tokens(ts: Seq<Seq<char>>) -> u32
    decreases ts.len(),
{
    if ts.len() <= 0 {
        0u32
    } else {
        spec_translate_tokens(ts.drop_last()) | flag_bits(ts.last())
    }
}

/// The bitmask of a whole `|`-delimited flag string.
pub open spec fn spec_translate(s: Seq<char>) -> u32 {
    spec_translate_tokens(spec_split(s, '|'))
}

/// Look up one flag name.
pub fn flag_value(token: &str) -> (r: Option<u32>)
    ensures
        r == spec_flag_value(token@),
{
    if str_eq(token, "ALLOWUNDO") {
        Some(FOF_ALLOWUNDO)
    } else if str_eq(token, "CONFIRMMOUSE") {
        Some(FOF_CONFIRMMOUSE)
    } else if str_eq(token, "FILESONLY") {
        Some(FOF_FILESONLY)
    } else if str_eq(token, "MULTIDESTFILES") {
        Some(FOF_MULTIDESTFILES)
    } else if str_eq(token, "NOCONFIRMATION") {
        Some(FOF_NOCONFIRMATION)
    } else if str_eq(token, "NOCONFIRMMKDIR") {
        Some(FOF_NOCONFIRMMKDIR)
    } else if str_eq(token, "NO_CONNECTED_ELEMENTS") {
        Some(FOF_NO_CONNECTED_ELEMENTS)
    } else if str_eq(token, "NOCOPYSECURITYATTRIBS") {
        Some(FOF_NOCOPYSECURITYATTRIBS)
    } else if str_eq(token, "NOERRORUI") {
        Some(FOF_NOERRORUI)
    } else if str_eq(token, "NORECURSEREPARSE") {
        Some(FOF_NORECURSEREPARSE)
    } else if str_eq(token, "NORECURSION") {
        Some(FOF_NORECURSION)
    } else if str_eq(token, "NO_UI") {
        Some(FOF_NO_UI)
    } else if str_eq(token, "RENAMEONCOLLISION") {
        Some(FOF_RENAMEONCOLLISION)
    } else if str_eq(token, "SILENT") {
        Some(FOF_SILENT)
    } else if str_eq(token, "SIMPLEPROGRESS") {
        Some(FOF_SIMPLEPROGRESS)
    } else if str_eq(token, "WANTMAPPINGHANDLE") {
        Some(FOF_WANTMAPPINGHANDLE)
    } else if str_eq(token, "WANTNUKEWARNING") {
        Some(FOF_WANTNUKEWARNING)
    } else {
        None
    }
}

/// Translate an optional `|`-delimited flag string into an optional bitmask.
///
/// No string gives no bitmask (the configuration step is skipped entirely),
/// while an empty or wholly unrecognized string gives the zero bitmask.
pub fn translate(flag_string: Option<&str>) -> (r: Option<u32>)
    ensures
        r == match flag_string {
            Some(s) => Some(spec_translate(s@)),
            None => None::<u32>,
        },
{
    match flag_string {
        None => None,
        Some(s) => {
            let toks = split_on(s, '|');
            let ghost tokens = spec_split(s@, '|');
            let mut acc: u32 = 0;
            let mut i: usize = 0;
            proof {
                assert(tokens.take(0) =~= Seq::<Seq<char>>::empty());
            }
            while i < toks.len()
                invariant
                    i <= toks.len(),
                    toks.deep_view() == tokens,
                    acc == spec_translate_tokens(tokens.take(i as int)),
                decreases toks.len() - i,
            {
                match flag_value(toks[i].as_str()) {
                    Some(v) => {
                        acc = acc | v;
                    },
                    None => {},
                }
                proof {
                    let j = i as int;
                    assert(tokens.take(j + 1).drop_last() =~= tokens.take(j));
                    assert(tokens.take(j + 1).last() == tokens[j]);
                    assert(spec_flag_value(tokens[j]) is None ==> acc == spec_translate_tokens(
                        tokens.take(j + 1),
                    )) by {
                        if spec_flag_value(tokens[j]) is None {
                            let a = spec_translate_tokens(tokens.take(j));
                            assert(a | 0u32 == a) by (bit_vector);
                        }
                    }
                }
                i += 1;
            }
            proof {
                assert(tokens.take(toks.len() as int) =~= tokens);
            }
            Some(acc)
        },
    }
}

/// A token already in the sequence adds nothing: the mask absorbs its bits.
pub proof fn lemma_translate_tokens_absorbs(ts: Seq<Seq<char>>, t: Seq<char>)
    requires
        ts.contains(t),
    ensures
        spec_translate_tokens(ts) | flag_bits(t) == spec_translate_tokens(ts),
    decreases ts.len(),
{
    if ts.len() == 0 {
        assert(false);
    } else {
        let dl = ts.drop_last();
        let x = spec_translate_tokens(dl);
        let b = flag_bits(ts.last());
        let c = flag_bits(t);
        if t == ts.last() {
            assert((x | b) | b == x | b) by (bit_vector);
        } else {
            let i = choose|i: int| 0 <= i < ts.len() && ts[i] == t;
            assert(dl[i] == t);
            assert(dl.contains(t));
            lemma_translate_tokens_absorbs(dl, t);
            assert((x | b) | c == (x | c) | b) by (bit_vector);
        }
    }
}

/// The mask of a sequence whose tokens all occur in another sequence is
/// absorbed by the mask of the other.
pub proof fn lemma_translate_tokens_subset(t1: Seq<Seq<char>>, t2: Seq<Seq<char>>)
    requires
        forall|t: Seq<char>| t1.contains(t) ==> t2.contains(t),
    ensures
        spec_translate_tokens(t2) | spec_translate_tokens(t1) == spec_translate_tokens(t2),
    decreases t1.len(),
{
    let y = spec_translate_tokens(t2);
    if t1.len() == 0 {
        assert(y | 0u32 == y) by (bit_vector);
    } else {
        let dl = t1.drop_last();
        assert forall|t: Seq<char>| dl.contains(t) implies t2.contains(t) by {
            let i = choose|i: int| 0 <= i < dl.len() && dl[i] == t;
            assert(t1[i] == t);
            assert(t1.contains(t));
        }
        lemma_translate_tokens_subset(dl, t2);
        let x = spec_translate_tokens(dl);
        let b = flag_bits(t1.last());
        assert(t1[t1.len() - 1] == t1.last());
        assert(t1.contains(t1.last()));
        lemma_translate_tokens_absorbs(t2, t1.last());
        assert(y | x == y ==> y | b == y ==> y | (x | b) == y) by (bit_vector);
    }
}

/// The mask depends only on the set of tokens: neither the order of the
/// names nor duplicates among them change it.
pub proof fn lemma_translate_tokens_set_invariant(t1: Seq<Seq<char>>, t2: Seq<Seq<char>>)
    requires
        t1.to_set() == t2.to_set(),
    ensures
        spec_translate_tokens(t1) == spec_translate_tokens(t2),
{
    assert forall|t: Seq<char>| t1.contains(t) implies t2.contains(t) by {
        assert(t1.to_set().contains(t));
        assert(t2.to_set().contains(t));
    }
    assert forall|t: Seq<char>| t2.contains(t) implies t1.contains(t) by {
        assert(t2.to_set().contains(t));
        assert(t1.to_set().contains(t));
    }
    lemma_translate_tokens_subset(t1, t2);
    lemma_translate_tokens_subset(t2, t1);
    let x = spec_translate_tokens(t1);
    let y = spec_translate_tokens(t2);
    assert(x == y) by (bit_vector)
        requires
            y | x == y,
            x | y == x,
    ;
}

/// The subsequence of `ts` made of its recognized tokens, in order.
pub open spec fn recognized_tokens(ts: Seq<Seq<char>>) -> Seq<Seq<char>> {
    ts.filter(|t: Seq<char>| recognized(t))
}

/// Unrecognized tokens contribute nothing: dropping them all leaves the
/// mask unchanged.
pub proof fn lemma_translate_tokens_unrecognized_dropped(ts: Seq<Seq<char>>)
    ensures
        spec_translate_tokens(ts) == spec_translate_tokens(recognized_tokens(ts)),
    decreases ts.len(),
{
    reveal(Seq::filter);
    if ts.len() == 0 {
        assert(recognized_tokens(ts) =~~= Seq::<Seq<char>>::empty());
    } else {
        let dl = ts.drop_last();
        lemma_translate_tokens_unrecognized_dropped(dl);
        let kept = recognized_tokens(dl);
        if recognized(ts.last()) {
            assert(recognized_tokens(ts) == kept.push(ts.last()));
            assert(kept.push(ts.last()).drop_last() =~~= kept);
        } else {
            assert(recognized_tokens(ts) == kept);
            let x = spec_translate_tokens(dl);
            assert(x | 0u32 == x) by (bit_vector);
        }
    }
}

} // verus!
