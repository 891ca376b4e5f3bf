//! Compatibility keys: which cached KV can serve which request.

use std::collections::BTreeMap;

use vstd::prelude::*;

verus! {

/// Structured compatibility key. The hard subset (`model`, `tokenizer`, `kv_layout`, `block_size`,
/// `extra`) must match for KV bytes to be reusable at all; `lora` and `quant` let a provider reason
/// about partial compatibility, such as base-layer reuse across adapters. Only the hard subset is
/// guaranteed here; finer policy belongs to the provider or the engine.
#[derive(Debug, PartialEq, Eq)]
pub struct CacheNamespace {
    pub model: String,
    pub tokenizer: String,
    /// Attention backend, dtype and head layout, which together fix KV byte compatibility. KV from
    /// one `kv_layout` is not reusable under another.
    pub kv_layout: String,
    pub block_size: u32,
    pub lora: Option<String>,
    pub quant: Option<String>,
    /// Fields not modelled yet. Part of the hard key: a key present on one side and absent on the
    /// other is a mismatch.
    pub extra: BTreeMap<String, String>,
}

/// A [`CacheNamespace`] as a mathematical value.
#[verifier::ext_equal]
pub struct CacheNamespaceView {
    pub model: Seq<char>,
    pub tokenizer: Seq<char>,
    pub kv_layout: Seq<char>,
    pub block_size: u32,
    pub lora: Option<Seq<char>>,
    pub quant: Option<Seq<char>>,
    pub extra: Map<Seq<char>, Seq<char>>,
}

impl CacheNamespaceView {
    /// KV bytes under `self` are usable under `other`: the two agree on everything but the adapter
    /// and the quantization.
    pub open spec fn hard_compatible_with(self, other: Self) -> bool {
        &&& self.model == other.model
        &&& self.tokenizer == other.tokenizer
        &&& self.kv_layout == other.kv_layout
        &&& self.block_size == other.block_size
        &&& self.extra == other.extra
    }

    /// The two agree on everything, adapter and quantization included.
    pub open spec fn fully_compatible_with(self, other: Self) -> bool {
        &&& self.hard_compatible_with(other)
        &&& self.lora == other.lora
        &&& self.quant == other.quant
    }
}

/// The characters of an optional string.
pub open spec fn text_option(s: Option<String>) -> Option<Seq<char>> {
    match s {
        Some(text) => Some(text@),
        None => None,
    }
}

/// The entries of a string map, keys and values taken by their characters.
pub open spec fn text_entries(entries: Map<String, String>) -> Map<Seq<char>, Seq<char>> {
    Map::new(
        |key: Seq<char>| exists|k: String| #[trigger] entries.contains_key(k) && k@ == key,
        |key: Seq<char>|
            entries[choose|k: String| #[trigger] entries.contains_key(k) && k@ == key]@,
    )
}

impl View for CacheNamespace {
    type V = CacheNamespaceView;

    open spec fn view(&self) -> CacheNamespaceView {
        CacheNamespaceView {
            model: self.model@,
            tokenizer: self.tokenizer@,
            kv_layout: self.kv_layout@,
            block_size: self.block_size,
            lora: text_option(self.lora),
            quant: text_option(self.quant),
            extra: text_entries(self.extra@),
        }
    }
}

impl Clone for CacheNamespace {
    fn clone(&self) -> (res: Self)
        ensures
            res@ == self@,
    {
        CacheNamespace {
            model: self.model.clone(),
            tokenizer: self.tokenizer.clone(),
            kv_layout: self.kv_layout.clone(),
            block_size: self.block_size,
            lora: self.lora.clone(),
            quant: self.quant.clone(),
            extra: self.extra.clone(),
        }
    }
}

/// `BTreeMap::eq` is trusted to compare contents: two maps are equal when they hold the same keys,
/// each with the same value, keys and values compared by their characters.
#[verifier::external_body]
fn same_entries(a: &BTreeMap<String, String>, b: &BTreeMap<String, String>) -> (same: bool)
    ensures
        same == (text_entries(a@) == text_entries(b@)),
{
    a == b
}

/// Compares two optional strings.
fn same_text(a: &Option<String>, b: &Option<String>) -> (same: bool)
    ensures
        same == (text_option(*a) == text_option(*b)),
{
    match (a, b) {
        (Some(x), Some(y)) => *x == *y,
        (None, None) => true,
        _ => false,
    }
}

impl CacheNamespace {
    /// Whether KV under `self` can be reused for a request whose namespace is `other`, adapter and
    /// quantization aside: the byte-compatibility subset. A provider applies its own `lora` and
    /// `quant` policy on top.
    pub fn hard_compatible_with(&self, other: &Self) -> (compatible: bool)
        ensures
            compatible == self@.hard_compatible_with(other@),
            compatible <==> self.model@ == other.model@ && self.tokenizer@ == other.tokenizer@
                && self.kv_layout@ == other.kv_layout@ && self.block_size == other.block_size
                && text_entries(self.extra@) == text_entries(other.extra@),
    {
        self.model == other.model && self.tokenizer == other.tokenizer && self.kv_layout
            == other.kv_layout && self.block_size == other.block_size && same_entries(
            &self.extra,
            &other.extra,
        )
    }

    /// Strict reuse compatibility: the hard subset, and the same adapter and quantization.
    pub fn fully_compatible_with(&self, other: &Self) -> (compatible: bool)
        ensures
            compatible == self@.fully_compatible_with(other@),
            compatible <==> self.model@ == other.model@ && self.tokenizer@ == other.tokenizer@
                && self.kv_layout@ == other.kv_layout@ && self.block_size == other.block_size
                && text_entries(self.extra@) == text_entries(other.extra@) && text_option(self.lora)
                == text_option(other.lora) && text_option(self.quant) == text_option(other.quant),
    {
        self.hard_compatible_with(other) && same_text(&self.lora, &other.lora) && same_text(
            &self.quant,
            &other.quant,
        )
    }
}

} // verus!
