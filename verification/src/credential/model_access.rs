//! An administrator's model policy for an account, kept and decided apart
//! from the upstream's own model permissions.

use vstd::prelude::*;
use vstd::string::StringSliceAdditionalSpecFns;
use vstd::utf8::encode_utf8;

use crate::text::{
    bytes_less, bytes_lt, lemma_bytes_lt_order, lemma_encode_injective, str_equal, text_error_of,
    trim_spec, trim_str, validate_text,
};

verus! {

/// The most exact model ids one account may list.
pub const MAX_ACCOUNT_ACCESS_MODELS: usize = 256;

/// How an account's model policy matches.
#[derive(Debug, Clone, Copy, PartialEq, Eq, Structural)]
pub enum AccountModelAccessMode {
    All,
    Allowlist,
    Denylist,
}

impl Default for AccountModelAccessMode {
    fn default() -> (r: AccountModelAccessMode)
        ensures
            r == AccountModelAccessMode::All,
    {
        AccountModelAccessMode::All
    }
}

/// A refused model policy; it carries no input, so nothing of the
/// configuration is echoed back.
#[derive(Debug, Clone, Copy, PartialEq, Eq, Structural)]
pub struct InvalidAccountModelAccess;

/// An exact model id in a policy: no surrounding whitespace, not blank, no
/// `*`, and 1 to 256 bytes without control bytes.
pub open spec fn access_model_valid(v: Seq<char>) -> bool {
    &&& trim_spec(v) == v
    &&& trim_spec(v).len() > 0
    &&& !encode_utf8(v).contains(42u8)
    &&& text_error_of(v, 256, true, None) is None
}

/// `All` with no models, or a list mode with 1 to 256 valid exact ids.
pub open spec fn access_valid(mode: AccountModelAccessMode, models: Seq<String>) -> bool {
    &&& models.len() <= MAX_ACCOUNT_ACCESS_MODELS
    &&& (mode == AccountModelAccessMode::All) == (models.len() == 0)
    &&& forall|i: int| 0 <= i < models.len() ==> access_model_valid((#[trigger] models[i])@)
}

/// The texts of `s`, as a set.
pub open spec fn name_set(s: Seq<String>) -> Set<Seq<char>> {
    Set::new(|v: Seq<char>| exists|i: int| 0 <= i < s.len() && (#[trigger] s[i])@ == v)
}

/// `s` is in strictly ascending byte order, so each text occurs once.
pub open spec fn names_ascending(s: Seq<String>) -> bool {
    forall|i: int, j: int| 0 <= i < j < s.len() ==> bytes_lt(encode_utf8((#[trigger] s[i])@), encode_utf8((#[trigger] s[j])@))
}

/// A validated account model policy.
#[derive(Debug, PartialEq, Eq)]
pub struct AccountModelAccess {
    mode: AccountModelAccessMode,
    models: Vec<String>,
}

impl Default for AccountModelAccess {
    fn default() -> (r: AccountModelAccess)
        ensures
            r.spec_mode() == AccountModelAccessMode::All,
            r.spec_models() == Set::<Seq<char>>::empty(),
    {
        AccountModelAccess::all()
    }
}

fn contains_star(s: &str) -> (r: bool)
    ensures
        r == s.spec_bytes().contains(42u8),
{
    let b = s.as_bytes();
    let mut i: usize = 0;
    while i < b.len()
        invariant
            i <= b.len(),
            b@ == s.spec_bytes(),
            forall|j: int| 0 <= j < i ==> b@[j] != 42u8,
        decreases b.len() - i,
    {
        if b[i] == 42 {
            assert(b@[i as int] == 42u8);
            return true;
        }
        i = i + 1;
    }
    false
}

fn model_valid(model: &String) -> (r: bool)
    ensures
        r == access_model_valid(model@),
{
    let t = trim_str(model.as_str());
    if !str_equal(t, model.as_str()) {
        return false;
    }
    if t.as_bytes().len() == 0 {
        assert(encode_utf8(t@).len() == 0);
        assert(t@.len() == 0) by {
            vstd::utf8::encode_utf8_decode_utf8(t@);
            assert(encode_utf8(t@) =~= Seq::<u8>::empty());
            assert(vstd::utf8::decode_utf8(Seq::<u8>::empty()) =~= Seq::<char>::empty());
        }
        return false;
    }
    assert(t@.len() > 0);
    if contains_star(model.as_str()) {
        return false;
    }
    validate_text(model.as_str(), 256, true, None).is_ok()
}

/// Inserts `m` into an ascending list unless an equal text is there.
fn insert_ascending(models: &mut Vec<String>, m: String)
    requires
        names_ascending(old(models)@),
    ensures
        names_ascending(final(models)@),
        name_set(final(models)@) == name_set(old(models)@).insert(m@),
        final(models)@.len() <= old(models)@.len() + 1,
{
    let n = models.len();
    let mut i: usize = 0;
    while i < n && bytes_less(models[i].as_str().as_bytes(), m.as_str().as_bytes())
        invariant
            i <= n,
            n == models.len(),
            forall|j: int| 0 <= j < i ==> bytes_lt(encode_utf8((#[trigger] models@[j])@), encode_utf8(m@)),
        decreases n - i,
    {
        i = i + 1;
    }
    if i < n && str_equal(models[i].as_str(), m.as_str()) {
        assert(name_set(models@) =~= name_set(models@).insert(m@)) by {
            assert(models@[i as int]@ == m@);
        }
        return;
    }
    let ghost old_models = models@;
    proof {
        if i < n {
            let a = encode_utf8(old_models[i as int]@);
            let b = encode_utf8(m@);
            lemma_bytes_lt_order(a, b, b);
            if a == b {
                lemma_encode_injective(old_models[i as int]@, m@);
            }
            assert(bytes_lt(b, a));
        }
    }
    models.insert(i, m);
    proof {
        let s = models@;
        assert(s =~= old_models.insert(i as int, m));
        assert forall|v: Seq<char>| name_set(s).contains(v) <==> name_set(old_models).insert(m@).contains(v) by {
            if name_set(s).contains(v) {
                let j = choose|j: int| 0 <= j < s.len() && (#[trigger] s[j])@ == v;
                if j < i {
                    assert(old_models[j]@ == v);
                } else if j > i {
                    assert(old_models[j - 1]@ == v);
                }
            }
            if name_set(old_models).contains(v) {
                let j = choose|j: int| 0 <= j < old_models.len() && (#[trigger] old_models[j])@ == v;
                if j < i {
                    assert(s[j]@ == v);
                } else {
                    assert(s[j + 1]@ == v);
                }
            }
            if v == m@ {
                assert(s[i as int]@ == v);
            }
        }
        assert(name_set(s) =~= name_set(old_models).insert(m@));
        assert forall|a: int, b: int| 0 <= a < b < s.len() implies bytes_lt(encode_utf8((#[trigger] s[a])@), encode_utf8((#[trigger] s[b])@)) by {
            let x = encode_utf8(s[a]@);
            let y = encode_utf8(s[b]@);
            if b < i {
                assert(s[a] == old_models[a] && s[b] == old_models[b]);
            } else if b == i {
                assert(s[a] == old_models[a]);
            } else if a < i {
                assert(s[a] == old_models[a] && s[b] == old_models[b - 1]);
                let z = encode_utf8(old_models[i as int]@);
                if b - 1 > i {
                    assert(bytes_lt(z, y));
                    lemma_bytes_lt_order(x, encode_utf8(m@), z);
                    lemma_bytes_lt_order(x, z, y);
                } else {
                    lemma_bytes_lt_order(x, encode_utf8(m@), z);
                }
            } else if a == i {
                assert(s[b] == old_models[b - 1]);
                let z = encode_utf8(old_models[i as int]@);
                if b - 1 > i {
                    assert(bytes_lt(z, y));
                    lemma_bytes_lt_order(x, z, y);
                }
            } else {
                assert(s[a] == old_models[a - 1] && s[b] == old_models[b - 1]);
            }
        }
    }
}

impl Clone for AccountModelAccess {
    fn clone(&self) -> (r: AccountModelAccess)
        ensures
            r.spec_mode() == self.spec_mode(),
            r.spec_models() == self.spec_models(),
    {
        proof {
            use_type_invariant(self);
        }
        let mut models: Vec<String> = Vec::new();
        let mut i: usize = 0;
        while i < self.models.len()
            invariant
                i <= self.models@.len(),
                models@.len() == i,
                forall|j: int| 0 <= j < i ==> (#[trigger] models@[j])@ == self.models@[j]@,
            decreases self.models@.len() - i,
        {
            models.push(self.models[i].clone());
            i = i + 1;
        }
        assert(name_set(models@) =~= name_set(self.models@)) by {
            assert forall|v: Seq<char>| name_set(models@).contains(v) <==> name_set(self.models@).contains(v) by {
                if name_set(models@).contains(v) {
                    let j = choose|j: int| 0 <= j < models@.len() && (#[trigger] models@[j])@ == v;
                    assert(self.models@[j]@ == v);
                }
                if name_set(self.models@).contains(v) {
                    let j = choose|j: int| 0 <= j < self.models@.len() && (#[trigger] self.models@[j])@ == v;
                    assert(models@[j]@ == v);
                }
            }
        }
        assert forall|a: int, b: int| 0 <= a < b < models@.len() implies bytes_lt(
            encode_utf8((#[trigger] models@[a])@),
            encode_utf8((#[trigger] models@[b])@),
        ) by {
            assert(models@[a]@ == self.models@[a]@);
            assert(models@[b]@ == self.models@[b]@);
        }
        assert forall|a: int| 0 <= a < models@.len() implies access_model_valid((#[trigger] models@[a])@) by {
            assert(models@[a]@ == self.models@[a]@);
        }
        AccountModelAccess { mode: self.mode, models }
    }
}

impl AccountModelAccess {
    pub closed spec fn spec_mode(&self) -> AccountModelAccessMode {
        self.mode
    }

    /// The exact model ids, as a set.
    pub closed spec fn spec_models(&self) -> Set<Seq<char>> {
        name_set(self.models@)
    }

    /// The ids are kept in ascending byte order, each once; at most 256
    /// are kept, each a valid exact id.
    #[verifier::type_invariant]
    pub closed spec fn well_ordered(&self) -> bool {
        &&& names_ascending(self.models@)
        &&& self.models@.len() <= MAX_ACCOUNT_ACCESS_MODELS
        &&& forall|i: int| 0 <= i < self.models@.len() ==> access_model_valid((#[trigger] self.models@[i])@)
    }

    /// The policy that allows every model.
    pub fn all() -> (r: AccountModelAccess)
        ensures
            r.spec_mode() == AccountModelAccessMode::All,
            r.spec_models() == Set::<Seq<char>>::empty(),
            r.well_ordered(),
    {
        let r = AccountModelAccess { mode: AccountModelAccessMode::All, models: Vec::new() };
        assert(name_set(r.models@) =~= Set::<Seq<char>>::empty());
        r
    }

    /// Validates a policy: `All` with no models, or an allow- or deny-list
    /// of 1 to 256 exact ids. Repeated ids count once.
    pub fn new(mode: AccountModelAccessMode, models: Vec<String>) -> (r: Result<AccountModelAccess, InvalidAccountModelAccess>)
        ensures
            r is Ok <==> access_valid(mode, models@),
            r matches Ok(a) ==> a.spec_mode() == mode && a.spec_models() == name_set(models@)
                && a.well_ordered(),
    {
        let is_all = match mode {
            AccountModelAccessMode::All => true,
            _ => false,
        };
        if models.len() > MAX_ACCOUNT_ACCESS_MODELS || is_all != (models.len() == 0) {
            return Err(InvalidAccountModelAccess);
        }
        let mut i: usize = 0;
        while i < models.len()
            invariant
                i <= models.len(),
                forall|j: int| 0 <= j < i ==> access_model_valid((#[trigger] models@[j])@),
            decreases models.len() - i,
        {
            if !model_valid(&models[i]) {
                return Err(InvalidAccountModelAccess);
            }
            i = i + 1;
        }
        let mut sorted: Vec<String> = Vec::new();
        let mut k: usize = 0;
        assert(name_set(sorted@) =~= name_set(models@.take(0)));
        while k < models.len()
            invariant
                k <= models.len(),
                models.len() <= MAX_ACCOUNT_ACCESS_MODELS,
                forall|j: int| 0 <= j < models@.len() ==> access_model_valid((#[trigger] models@[j])@),
                sorted@.len() <= k,
                names_ascending(sorted@),
                name_set(sorted@) == name_set(models@.take(k as int)),
            decreases models.len() - k,
        {
            let m = models[k].clone();
            insert_ascending(&mut sorted, m);
            assert(name_set(models@.take(k as int + 1)) =~= name_set(models@.take(k as int)).insert(models@[k as int]@)) by {
                assert forall|v: Seq<char>| name_set(models@.take(k as int + 1)).contains(v)
                    <==> name_set(models@.take(k as int)).insert(models@[k as int]@).contains(v) by {
                    if name_set(models@.take(k as int + 1)).contains(v) {
                        let j = choose|j: int| 0 <= j < k + 1 && (#[trigger] models@.take(k as int + 1)[j])@ == v;
                        if j < k {
                            assert(models@.take(k as int)[j]@ == v);
                        }
                    }
                    if name_set(models@.take(k as int)).contains(v) {
                        let j = choose|j: int| 0 <= j < k && (#[trigger] models@.take(k as int)[j])@ == v;
                        assert(models@.take(k as int + 1)[j]@ == v);
                    }
                    if v == models@[k as int]@ {
                        assert(models@.take(k as int + 1)[k as int]@ == v);
                    }
                }
            }
            k = k + 1;
        }
        assert(models@.take(models.len() as int) =~= models@);
        assert forall|i: int| 0 <= i < sorted@.len() implies access_model_valid((#[trigger] sorted@[i])@) by {
            assert(name_set(sorted@).contains(sorted@[i]@));
            let j = choose|j: int| 0 <= j < models@.len() && (#[trigger] models@[j])@ == sorted@[i]@;
        }
        Ok(AccountModelAccess { mode, models: sorted })
    }

    pub fn mode(&self) -> (r: AccountModelAccessMode)
        ensures
            r == self.spec_mode(),
    {
        self.mode
    }

    /// The exact model ids, in ascending byte order for a well-ordered
    /// policy, as a `BTreeSet` iterates them.
    pub fn models(&self) -> (r: &[String])
        ensures
            name_set(r@) == self.spec_models(),
            names_ascending(r@),
            r@.len() <= MAX_ACCOUNT_ACCESS_MODELS,
            forall|i: int| 0 <= i < r@.len() ==> access_model_valid((#[trigger] r@[i])@),
    {
        proof {
            use_type_invariant(self);
        }
        self.models.as_slice()
    }

    /// Whether the policy lets the account serve `upstream_model`.
    pub fn allows(&self, upstream_model: &str) -> (r: bool)
        ensures
            r == (match self.spec_mode() {
                AccountModelAccessMode::All => true,
                AccountModelAccessMode::Allowlist => self.spec_models().contains(upstream_model@),
                AccountModelAccessMode::Denylist => !self.spec_models().contains(upstream_model@),
            }),
    {
        match self.mode {
            AccountModelAccessMode::All => true,
            AccountModelAccessMode::Allowlist => self.contains(upstream_model),
            AccountModelAccessMode::Denylist => !self.contains(upstream_model),
        }
    }

    fn contains(&self, model: &str) -> (r: bool)
        ensures
            r == self.spec_models().contains(model@),
    {
        let mut i: usize = 0;
        while i < self.models.len()
            invariant
                i <= self.models.len(),
                forall|j: int| 0 <= j < i ==> (#[trigger] self.models@[j])@ != model@,
            decreases self.models.len() - i,
        {
            if str_equal(self.models[i].as_str(), model) {
                assert(self.models@[i as int]@ == model@);
                return true;
            }
            i = i + 1;
        }
        false
    }
}

} // verus!
