//! Local price overrides frozen for a request; default price lists and
//! model aliases stay with the providers.

use vstd::prelude::*;
use vstd::string::StringSliceAdditionalSpecFns;

use crate::accounting::{decimal_text_value, Decimal};
use crate::text::str_equal;
use crate::textmap::TextMap;

verus! {

/// The largest price, in scaled units: one million USD per million tokens.
pub const MAX_TOKEN_PRICE_SCALED: u128 = 10_000_000_000_000_000;

/// A USD price per million tokens with at most four decimal places, so that
/// the price of one token has the amount precision.
#[derive(Debug, Clone, Copy, PartialEq, Eq, Structural)]
pub struct TokenPrice(Decimal);

/// Scaled amounts a token price may hold: whole multiples of a millionth of
/// the scale (four decimal places), and at most one million USD.
pub open spec fn token_price_valid(scaled: nat) -> bool {
    scaled % 1_000_000 == 0 && scaled <= MAX_TOKEN_PRICE_SCALED
}

impl TokenPrice {
    pub closed spec fn spec_amount(self) -> Decimal {
        self.0
    }

    /// The price of one token, in amount ticks.
    pub fn ticks_per_token(self) -> (r: u128)
        ensures
            r == self.spec_amount()@ / 1_000_000,
    {
        self.0.scaled() / 1_000_000
    }

    /// Parses a non-negative decimal price with at most four decimal places
    /// and at most 1000000 USD per million tokens.
    pub fn parse(value: &str) -> (r: Result<TokenPrice, &'static str>)
        ensures
            match decimal_text_value(value.spec_bytes()) {
                None => r matches Err(m) && m@ == "单价必须为非负十进制字符串"@,
                Some(v) => if token_price_valid(v) {
                    r matches Ok(p) && p.spec_amount()@ == v
                } else {
                    r matches Err(m) && m@ == "单价最多四位小数且不超过 1000000 USD / 百万 Token"@
                },
            },
    {
        let amount = match Decimal::parse(value) {
            Ok(d) => d,
            Err(_) => {
                return Err("单价必须为非负十进制字符串");
            },
        };
        if amount.scaled() % 1_000_000 != 0 || amount.scaled() > MAX_TOKEN_PRICE_SCALED {
            return Err("单价最多四位小数且不超过 1000000 USD / 百万 Token");
        }
        Ok(TokenPrice(amount))
    }

    /// The price in canonical decimal text.
    pub fn canonical(self) -> (r: String)
        ensures
            r@.len() == crate::accounting::render_decimal(self.spec_amount()@).len(),
            forall|i: int| 0 <= i < r@.len() ==> r@[i] as u32 == crate::accounting::render_decimal(self.spec_amount()@)[i] as u32,
    {
        self.0.canonical()
    }
}

/// One complete band of token prices; a zero price differs from a band
/// that is not overridden.
#[derive(Debug, Clone, Copy, PartialEq, Eq, Structural)]
pub struct TokenPriceOverride {
    pub input: TokenPrice,
    pub output: TokenPrice,
    pub cache_read: TokenPrice,
    pub cache_write: TokenPrice,
}

/// The override of one exact model; the multiplier is in basis points,
/// 10000 meaning one.
#[derive(Debug, Clone, PartialEq, Eq)]
pub struct ModelPriceOverride {
    pub multiplier_bps: u32,
    pub bands: TextMap<TokenPriceOverride>,
}

/// The price bands an override may name.
pub open spec fn band_supported(band: Seq<char>) -> bool {
    ||| band == "standard"@
    ||| band == "fast"@
    ||| band == "flex"@
    ||| band == "long_standard"@
    ||| band == "long_fast"@
    ||| band == "long_flex"@
    ||| band == "image"@
}

/// The supported price bands are exactly standard, fast, flex,
/// long_standard, long_fast, long_flex and image.
pub proof fn lemma_supported_bands(band: Seq<char>)
    ensures
        band_supported("standard"@),
        band_supported("fast"@),
        band_supported("flex"@),
        band_supported("long_standard"@),
        band_supported("long_fast"@),
        band_supported("long_flex"@),
        band_supported("image"@),
        band_supported(band) ==> band == "standard"@ || band == "fast"@ || band == "flex"@ || band == "long_standard"@
            || band == "long_fast"@ || band == "long_flex"@ || band == "image"@,
{
}

fn band_is_supported(band: &str) -> (r: bool)
    ensures
        r == band_supported(band@),
{
    str_equal(band, "standard") || str_equal(band, "fast") || str_equal(band, "flex")
        || str_equal(band, "long_standard") || str_equal(band, "long_fast") || str_equal(band, "long_flex")
        || str_equal(band, "image")
}

/// The largest multiplier: one hundred times.
pub const MAX_MULTIPLIER_BPS: u32 = 1_000_000;

impl ModelPriceOverride {
    /// Checks the constraints storage and administration share: a
    /// multiplier of at most one hundred times, and supported bands only.
    pub fn validate(&self) -> (r: Result<(), &'static str>)
        ensures
            self.multiplier_bps > MAX_MULTIPLIER_BPS ==> (r matches Err(m) && m@ == "倍率必须在 0 至 100 倍之间"@),
            self.multiplier_bps <= MAX_MULTIPLIER_BPS ==> (r is Ok <==> forall|b: Seq<char>|
                #[trigger] self.bands@.contains_key(b) ==> band_supported(b)),
            self.multiplier_bps <= MAX_MULTIPLIER_BPS && r is Err ==> (r matches Err(m) && m@ == "价格档位不受支持"@),
            self.multiplier_bps <= MAX_MULTIPLIER_BPS && (forall|b: Seq<char>|
                #[trigger] self.bands@.contains_key(b) ==> b == "standard"@ || b == "fast"@ || b == "flex"@ || b
                    == "long_standard"@ || b == "long_fast"@ || b == "long_flex"@ || b == "image"@) ==> r is Ok,
    {
        if self.multiplier_bps > MAX_MULTIPLIER_BPS {
            return Err("倍率必须在 0 至 100 倍之间");
        }
        proof {
            use_type_invariant(&self.bands);
            self.bands.lemma_view_entries();
        }
        let entries = self.bands.entries();
        let mut i: usize = 0;
        while i < entries.len()
            invariant
                i <= entries@.len(),
                self.multiplier_bps <= MAX_MULTIPLIER_BPS,
                entries@ == self.bands.spec_entries(),
                forall|j: int| 0 <= j < i ==> band_supported((#[trigger] entries@[j]).0@),
            decreases entries@.len() - i,
        {
            if !band_is_supported(entries[i].0.as_str()) {
                proof {
                    use_type_invariant(&self.bands);
                    self.bands.lemma_view_entries();
                    assert(self.bands@.contains_key(entries@[i as int].0@));
                }
                return Err("价格档位不受支持");
            }
            i = i + 1;
        }
        proof {
            use_type_invariant(&self.bands);
            self.bands.lemma_view_entries();
        }
        assert forall|b: Seq<char>| #[trigger] self.bands@.contains_key(b) implies band_supported(b) by {
            let j = choose|j: int| 0 <= j < self.bands.spec_entries().len() && self.bands.spec_entries()[j].0@ == b;
            assert(band_supported(entries@[j].0@));
        }
        Ok(())
    }
}

/// Immutable overrides indexed by provider, then by upstream model.
pub type PricingOverrides = TextMap<TextMap<ModelPriceOverride>>;

/// The bands of a model override, as a map.
pub open spec fn bands_view(m: ModelPriceOverride) -> Map<Seq<char>, TokenPriceOverride> {
    m.bands@
}

/// The override of one model after merging `over` onto `base`: the
/// multiplier comes from `over` alone, and `over`'s bands replace or add to
/// the base's bands one by one.
pub open spec fn merged_model(base: Option<ModelPriceOverride>, over: ModelPriceOverride) -> (u32, Map<Seq<char>, TokenPriceOverride>) {
    let base_bands = match base {
        Some(b) => bands_view(b),
        None => Map::empty(),
    };
    (over.multiplier_bps, base_bands.union_prefer_right(bands_view(over)))
}

impl ModelPriceOverride {
    fn with_bands_from(self, other: &ModelPriceOverride) -> (r: ModelPriceOverride)
        ensures
            r.multiplier_bps == other.multiplier_bps,
            r.bands@ == self.bands@.union_prefer_right(other.bands@),
    {
        let mut bands = self.bands;
        proof {
            use_type_invariant(&other.bands);
            other.bands.lemma_view_entries();
        }
        let entries = other.bands.entries();
        let ghost start = bands@;
        let mut i: usize = 0;
        while i < entries.len()
            invariant
                i <= entries@.len(),
                entries@ == other.bands.spec_entries(),
                bands@ == start.union_prefer_right(entries_prefix_view(entries@, i as int)),
            decreases entries@.len() - i,
        {
            let k = entries[i].0.clone();
            let v = entries[i].1;
            bands.insert(k, v);
            proof {
                lemma_prefix_view_step(entries@, i as int);
                assert(bands@ =~= start.union_prefer_right(entries_prefix_view(entries@, i as int + 1)));
            }
            i = i + 1;
        }
        proof {
            lemma_prefix_view_full(&other.bands);
        }
        ModelPriceOverride { multiplier_bps: other.multiplier_bps, bands }
    }
}

/// The map the first `n` entries give, later entries replacing earlier ones.
pub open spec fn entries_prefix_view<V>(s: Seq<(String, V)>, n: int) -> Map<Seq<char>, V>
    decreases n,
{
    if n <= 0 {
        Map::empty()
    } else {
        entries_prefix_view(s, n - 1).insert(s[n - 1].0@, s[n - 1].1)
    }
}

proof fn lemma_prefix_view_step<V>(s: Seq<(String, V)>, i: int)
    requires
        0 <= i < s.len(),
    ensures
        entries_prefix_view(s, i + 1) == entries_prefix_view(s, i).insert(s[i].0@, s[i].1),
{
}

proof fn lemma_prefix_view_full<V>(m: &TextMap<V>)
    requires
        m.well_formed(),
    ensures
        entries_prefix_view(m.spec_entries(), m.spec_entries().len() as int) == m@,
{
    m.lemma_view_entries();
    let s = m.spec_entries();
    lemma_prefix_view_keys(s, s.len() as int);
    assert forall|k: Seq<char>| entries_prefix_view(s, s.len() as int).contains_key(k) <==> m@.contains_key(k) by {
        if m@.contains_key(k) {
            let j = choose|j: int| 0 <= j < s.len() && s[j].0@ == k;
            assert(m@.contains_key(s[j].0@));
        }
    }
    assert forall|k: Seq<char>| #[trigger] entries_prefix_view(s, s.len() as int).contains_key(k) implies
        entries_prefix_view(s, s.len() as int)[k] == m@[k] by {
        let j = choose|j: int| 0 <= j < s.len() && s[j].0@ == k && entries_prefix_view(s, s.len() as int)[k] == s[j].1;
        assert(m@.contains_key(s[j].0@));
    }
    assert(entries_prefix_view(s, s.len() as int) =~= m@);
}

proof fn lemma_prefix_view_keys<V>(s: Seq<(String, V)>, n: int)
    requires
        0 <= n <= s.len(),
    ensures
        forall|k: Seq<char>| #[trigger] entries_prefix_view(s, n).contains_key(k) <==> exists|j: int| 0 <= j < n && s[j].0@ == k,
        forall|k: Seq<char>| #[trigger] entries_prefix_view(s, n).contains_key(k) ==> exists|j: int|
            0 <= j < n && s[j].0@ == k && entries_prefix_view(s, n)[k] == s[j].1,
    decreases n,
{
    if n > 0 {
        lemma_prefix_view_keys(s, n - 1);
        assert forall|k: Seq<char>| #[trigger] entries_prefix_view(s, n).contains_key(k) <==> exists|j: int| 0 <= j < n && s[j].0@ == k by {
            if entries_prefix_view(s, n).contains_key(k) && k != s[n - 1].0@ {
                assert(entries_prefix_view(s, n - 1).contains_key(k));
                let j = choose|j: int| 0 <= j < n - 1 && s[j].0@ == k;
                assert(0 <= j < n && s[j].0@ == k);
            }
            if k == s[n - 1].0@ {
                assert(0 <= n - 1 < n && s[n - 1].0@ == k);
            }
            if exists|j: int| 0 <= j < n && s[j].0@ == k {
                let j = choose|j: int| 0 <= j < n && s[j].0@ == k;
                if j < n - 1 {
                    assert(exists|j2: int| 0 <= j2 < n - 1 && s[j2].0@ == k);
                    assert(entries_prefix_view(s, n - 1).contains_key(k));
                }
            }
        }
        assert forall|k: Seq<char>| #[trigger] entries_prefix_view(s, n).contains_key(k) implies exists|j: int|
            0 <= j < n && s[j].0@ == k && entries_prefix_view(s, n)[k] == s[j].1 by {
            if k == s[n - 1].0@ {
                assert(0 <= n - 1 < n && s[n - 1].0@ == k && entries_prefix_view(s, n)[k] == s[n - 1].1);
            } else {
                assert(entries_prefix_view(s, n - 1).contains_key(k));
                let j = choose|j: int| 0 <= j < n - 1 && s[j].0@ == k && entries_prefix_view(s, n - 1)[k] == s[j].1;
                assert(0 <= j < n && s[j].0@ == k && entries_prefix_view(s, n)[k] == s[j].1);
            }
        }
    }
}

/// `r` is the model override that merging `over` onto `base` gives.
pub open spec fn model_merged(r: ModelPriceOverride, base: Option<ModelPriceOverride>, over: ModelPriceOverride) -> bool {
    r.multiplier_bps == merged_model(base, over).0 && r.bands@ == merged_model(base, over).1
}

/// `r` is the per-model overrides that merging `over` onto `base` gives:
/// every model of either, base models that `over` does not name kept as
/// they were, and named models merged.
pub open spec fn models_merged(
    r: Map<Seq<char>, ModelPriceOverride>,
    base: Map<Seq<char>, ModelPriceOverride>,
    over: Map<Seq<char>, ModelPriceOverride>,
) -> bool {
    &&& forall|m: Seq<char>| #[trigger] r.contains_key(m) <==> (base.contains_key(m) || over.contains_key(m))
    &&& forall|m: Seq<char>| base.contains_key(m) && !over.contains_key(m) ==> #[trigger] r[m] == base[m]
    &&& forall|m: Seq<char>| #[trigger] over.contains_key(m) ==> model_merged(
        r[m],
        if base.contains_key(m) { Some(base[m]) } else { None },
        over[m],
    )
}

/// `r` is what merging the overrides `over` onto `base` gives, provider by
/// provider and model by model.
pub open spec fn pricing_merged(
    r: Map<Seq<char>, TextMap<ModelPriceOverride>>,
    base: Map<Seq<char>, TextMap<ModelPriceOverride>>,
    over: Map<Seq<char>, TextMap<ModelPriceOverride>>,
) -> bool {
    &&& forall|p: Seq<char>| #[trigger] r.contains_key(p) <==> (base.contains_key(p) || over.contains_key(p))
    &&& forall|p: Seq<char>| base.contains_key(p) && !over.contains_key(p) ==> #[trigger] r[p] == base[p]
    &&& forall|p: Seq<char>| #[trigger] over.contains_key(p) ==> models_merged(
        r[p]@,
        if base.contains_key(p) { base[p]@ } else { Map::empty() },
        over[p]@,
    )
}

proof fn lemma_prefix_excludes<V>(s: Seq<(String, V)>, i: int)
    requires
        crate::textmap::keys_ascending(s),
        0 <= i < s.len(),
    ensures
        !entries_prefix_view(s, i).contains_key(s[i].0@),
{
    lemma_prefix_view_keys(s, i);
    if entries_prefix_view(s, i).contains_key(s[i].0@) {
        let j = choose|j: int| 0 <= j < i && s[j].0@ == s[i].0@;
        crate::text::lemma_bytes_lt_order(vstd::utf8::encode_utf8(s[j].0@), vstd::utf8::encode_utf8(s[i].0@), vstd::utf8::encode_utf8(s[i].0@));
    }
}

fn merge_models(target: TextMap<ModelPriceOverride>, models: &TextMap<ModelPriceOverride>) -> (r: TextMap<ModelPriceOverride>)
    ensures
        models_merged(r@, target@, models@),
{
    let mut target = target;
    proof {
        use_type_invariant(models);
        models.lemma_view_entries();
        lemma_prefix_view_full(models);
    }
    let entries = models.entries();
    let ghost start = target@;
    let mut j: usize = 0;
    assert(models_merged(target@, start, entries_prefix_view(entries@, 0)));
    while j < entries.len()
        invariant
            j <= entries@.len(),
            entries@ == models.spec_entries(),
            crate::textmap::keys_ascending(entries@),
            models_merged(target@, start, entries_prefix_view(entries@, j as int)),
        decreases entries@.len() - j,
    {
        let ghost before = target@;
        let ghost m = entries@[j as int].0@;
        proof {
            lemma_prefix_excludes(entries@, j as int);
            lemma_prefix_view_step(entries@, j as int);
        }
        let entry = match target.remove(entries[j].0.as_str()) {
            Some(e) => e,
            None => ModelPriceOverride { multiplier_bps: 10_000, bands: TextMap::new() },
        };
        let merged = entry.with_bands_from(&entries[j].1);
        target.insert(entries[j].0.clone(), merged);
        proof {
            let over = entries_prefix_view(entries@, j as int + 1);
            assert(over == entries_prefix_view(entries@, j as int).insert(m, entries@[j as int].1));
            if start.contains_key(m) {
                assert(before.contains_key(m) && before[m] == start[m]);
            } else {
                assert(!before.contains_key(m));
                assert(entry.bands@ =~= Map::<Seq<char>, TokenPriceOverride>::empty());
            }
            assert forall|x: Seq<char>| #[trigger] target@.contains_key(x) <==> (start.contains_key(x) || over.contains_key(x)) by {
                if x != m {
                    assert(target@.contains_key(x) == before.contains_key(x));
                }
            }
            assert forall|x: Seq<char>| start.contains_key(x) && !over.contains_key(x) implies #[trigger] target@[x] == start[x] by {
                assert(x != m);
            }
            assert forall|x: Seq<char>| #[trigger] over.contains_key(x) implies model_merged(
                target@[x],
                if start.contains_key(x) { Some(start[x]) } else { None },
                over[x],
            ) by {
                if x != m {
                    assert(entries_prefix_view(entries@, j as int).contains_key(x));
                }
            }
        }
        j = j + 1;
    }
    target
}

/// Overlays `overrides` band by band onto `base`: a named model takes the
/// override's multiplier (the multiplier is set by manual overrides only)
/// and its bands on top of the base bands; a model the base lacks starts
/// from a multiplier of one and no bands.
pub fn merge_pricing(base: PricingOverrides, overrides: &PricingOverrides) -> (r: PricingOverrides)
    ensures
        pricing_merged(r@, base@, overrides@),
{
    let mut result = base;
    proof {
        use_type_invariant(overrides);
        overrides.lemma_view_entries();
        lemma_prefix_view_full(overrides);
    }
    let entries = overrides.entries();
    let ghost start = result@;
    let mut i: usize = 0;
    assert(pricing_merged(result@, start, entries_prefix_view(entries@, 0)));
    while i < entries.len()
        invariant
            i <= entries@.len(),
            entries@ == overrides.spec_entries(),
            crate::textmap::keys_ascending(entries@),
            pricing_merged(result@, start, entries_prefix_view(entries@, i as int)),
        decreases entries@.len() - i,
    {
        let ghost before = result@;
        let ghost p = entries@[i as int].0@;
        proof {
            lemma_prefix_excludes(entries@, i as int);
            lemma_prefix_view_step(entries@, i as int);
        }
        let target = match result.remove(entries[i].0.as_str()) {
            Some(t) => t,
            None => TextMap::new(),
        };
        let ghost target_view = target@;
        let merged = merge_models(target, &entries[i].1);
        result.insert(entries[i].0.clone(), merged);
        proof {
            let over = entries_prefix_view(entries@, i as int + 1);
            if start.contains_key(p) {
                assert(before.contains_key(p) && before[p] == start[p]);
            } else {
                assert(!before.contains_key(p));
                assert(target_view =~= Map::<Seq<char>, ModelPriceOverride>::empty());
            }
            assert forall|x: Seq<char>| #[trigger] result@.contains_key(x) <==> (start.contains_key(x) || over.contains_key(x)) by {
                if x != p {
                    assert(result@.contains_key(x) == before.contains_key(x));
                }
            }
            assert forall|x: Seq<char>| start.contains_key(x) && !over.contains_key(x) implies #[trigger] result@[x] == start[x] by {
                assert(x != p);
            }
            assert forall|x: Seq<char>| #[trigger] over.contains_key(x) implies models_merged(
                result@[x]@,
                if start.contains_key(x) { start[x]@ } else { Map::empty() },
                over[x]@,
            ) by {
                if x != p {
                    assert(entries_prefix_view(entries@, i as int).contains_key(x));
                }
            }
        }
        i = i + 1;
    }
    result
}

} // verus!
