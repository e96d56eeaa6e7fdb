//! The persisted settings and their operations: provider, model, timeout,
//! API keys, and the named prompt presets, together with the validation that
//! runs before any request and the pure effect of each settings subcommand.
//! Reading and writing the settings file is the binary's business; it hands a
//! `Settings` value in and takes the changed one back.

use vstd::prelude::*;
use vstd::string::StringExecFns;
use crate::command::{AIModel, AIProvider, ConfigSubcommand, PresetSubcommand};
use crate::error::ConfigError;
use crate::text::str_eq;

verus! {

/// First-match lookup among ordered (name, prompt) entries.
pub open spec fn lookup_in(es: Seq<(Seq<char>, Seq<char>)>, name: Seq<char>) -> Option<Seq<char>>
    decreases es.len(),
{
    if es.len() == 0 {
        None
    } else if es[0].0 == name {
        Some(es[0].1)
    } else {
        lookup_in(es.drop_first(), name)
    }
}

/// The lookup finds exactly the first entry with the name.
proof fn lemma_lookup_at(es: Seq<(Seq<char>, Seq<char>)>, name: Seq<char>, j: int)
    requires
        0 <= j < es.len(),
        forall|k: int| 0 <= k < j ==> (#[trigger] es[k]).0 != name,
        es[j].0 == name,
    ensures
        lookup_in(es, name) == Some(es[j].1),
    decreases es.len(),
{
    if j > 0 {
        assert forall|k: int| 0 <= k < j - 1 implies (#[trigger] es.drop_first()[k]).0 != name by {
            assert(es.drop_first()[k] == es[k + 1]);
        }
        assert(es.drop_first()[j - 1] == es[j]);
        lemma_lookup_at(es.drop_first(), name, j - 1);
    }
}

/// The lookup misses exactly when no entry carries the name.
proof fn lemma_lookup_none_iff(es: Seq<(Seq<char>, Seq<char>)>, name: Seq<char>)
    ensures
        (lookup_in(es, name) is None) <==> (forall|k: int|
            0 <= k < es.len() ==> (#[trigger] es[k]).0 != name),
    decreases es.len(),
{
    if es.len() > 0 {
        lemma_lookup_none_iff(es.drop_first(), name);
        assert(forall|k: int|
            0 <= k < es.drop_first().len() ==> #[trigger] es.drop_first()[k] == es[k + 1]);
        if es[0].0 != name && (lookup_in(es.drop_first(), name) is None) {
            assert forall|k: int| 0 <= k < es.len() implies (#[trigger] es[k]).0 != name by {
                if k > 0 {
                    assert(es[k] == es.drop_first()[k - 1]);
                }
            }
        }
    }
}

/// Appending an entry leaves every earlier name's lookup alone and gives the
/// new name its prompt when it was absent.
proof fn lemma_lookup_push(es: Seq<(Seq<char>, Seq<char>)>, e: (Seq<char>, Seq<char>), n: Seq<char>)
    ensures
        lookup_in(es.push(e), n) == if lookup_in(es, n) is Some {
            lookup_in(es, n)
        } else if e.0 == n {
            Some(e.1)
        } else {
            None
        },
    decreases es.len(),
{
    if es.len() == 0 {
        assert(es.push(e)[0] == e);
        assert(es.push(e).drop_first() =~= Seq::<(Seq<char>, Seq<char>)>::empty());
        assert(lookup_in(Seq::<(Seq<char>, Seq<char>)>::empty(), n) is None);
        assert(lookup_in(es, n) is None);
        if e.0 == n {
            assert(lookup_in(es.push(e), n) == Some(e.1));
        } else {
            assert(lookup_in(es.push(e), n) == lookup_in(es.push(e).drop_first(), n));
        }
    } else {
        assert(es.push(e)[0] == es[0]);
        assert(es.push(e).drop_first() =~= es.drop_first().push(e));
        lemma_lookup_push(es.drop_first(), e, n);
        assert(lookup_in(es.drop_first().push(e), n) == if lookup_in(es.drop_first(), n) is Some {
            lookup_in(es.drop_first(), n)
        } else if e.0 == n {
            Some(e.1)
        } else {
            None
        });
        if es[0].0 == n {
            assert(lookup_in(es.push(e), n) == Some(es[0].1));
            assert(lookup_in(es, n) == Some(es[0].1));
        } else {
            assert(lookup_in(es.push(e), n) == lookup_in(es.drop_first().push(e), n));
            assert(lookup_in(es, n) == lookup_in(es.drop_first(), n));
        }
    }
}

/// Removing an entry whose name is not `n` leaves `n`'s lookup alone.
proof fn lemma_lookup_remove_other(es: Seq<(Seq<char>, Seq<char>)>, j: int, n: Seq<char>)
    requires
        0 <= j < es.len(),
        es[j].0 != n,
    ensures
        lookup_in(es.remove(j), n) == lookup_in(es, n),
    decreases es.len(),
{
    if j == 0 {
        assert(es.remove(0) =~= es.drop_first());
    } else {
        assert(es.remove(j)[0] == es[0]);
        if es[0].0 != n {
            assert(es.remove(j).drop_first() =~= es.drop_first().remove(j - 1));
            assert(es.drop_first()[j - 1] == es[j]);
            lemma_lookup_remove_other(es.drop_first(), j - 1, n);
        }
    }
}

/// The named prompt presets: ordered entries with pairwise distinct names.
pub struct Presets {
    entries: Vec<(String, String)>,
}

impl View for Presets {
    type V = Seq<(Seq<char>, Seq<char>)>;

    closed spec fn view(&self) -> Seq<(Seq<char>, Seq<char>)> {
        self.entries.deep_view()
    }
}

impl Presets {
    /// Names are pairwise distinct.
    pub open spec fn wf(self) -> bool {
        forall|i: int, j: int|
            0 <= i < j < self@.len() ==> (#[trigger] self@[i]).0 != (#[trigger] self@[j]).0
    }

    /// The prompt stored under a name, if any.
    pub open spec fn spec_lookup(self, name: Seq<char>) -> Option<Seq<char>> {
        lookup_in(self@, name)
    }

    /// An empty preset store.
    pub fn new() -> (r: Presets)
        ensures
            r@ == Seq::<(Seq<char>, Seq<char>)>::empty(),
            r.wf(),
    {
        let r = Presets { entries: Vec::new() };
        proof {
            assert(r@ =~= Seq::<(Seq<char>, Seq<char>)>::empty());
        }
        r
    }

    /// How many presets are stored.
    pub fn len(&self) -> (r: usize)
        ensures
            r == self@.len(),
    {
        self.entries.len()
    }

    /// Whether no preset is stored.
    pub fn is_empty(&self) -> (r: bool)
        ensures
            r == (self@.len() == 0),
    {
        self.entries.is_empty()
    }

    /// The name and prompt stored at one position.
    pub fn entry_at(&self, i: usize) -> (r: (String, String))
        requires
            i < self@.len(),
        ensures
            (r.0@, r.1@) == self@[i as int],
    {
        let e = (self.entries[i].0.clone(), self.entries[i].1.clone());
        e
    }

    /// Index of the entry with this name, if any.
    fn find(&self, name: &str) -> (r: Option<usize>)
        ensures
            match r {
                Some(j) => j < self@.len() && self@[j as int].0 == name@ && forall|k: int|
                    0 <= k < j ==> (#[trigger] self@[k]).0 != name@,
                None => forall|k: int| 0 <= k < self@.len() ==> (#[trigger] self@[k]).0 != name@,
            },
    {
        let mut i: usize = 0;
        let n = self.entries.len();
        while i < n
            invariant
                i <= n,
                n == self@.len(),
                forall|k: int| 0 <= k < i ==> (#[trigger] self@[k]).0 != name@,
            decreases n - i,
        {
            if str_eq(self.entries[i].0.as_str(), name) {
                return Some(i);
            }
            i = i + 1;
        }
        None
    }

    /// The prompt stored under a name, if any.
    pub fn get(&self, name: &str) -> (r: Option<String>)
        ensures
            r.deep_view() == self.spec_lookup(name@),
    {
        match self.find(name) {
            Some(j) => {
                proof {
                    lemma_lookup_at(self@, name@, j as int);
                }
                Some(self.entries[j].1.clone())
            },
            None => {
                proof {
                    lemma_lookup_none_iff(self@, name@);
                }
                None
            },
        }
    }

    /// Remove the preset with this name, handing its prompt back.
    pub fn remove(&mut self, name: &str) -> (r: Option<String>)
        requires
            old(self).wf(),
        ensures
            final(self).wf(),
            r.deep_view() == old(self).spec_lookup(name@),
            forall|n: Seq<char>|
                final(self).spec_lookup(n) == if n == name@ {
                    None::<Seq<char>>
                } else {
                    old(self).spec_lookup(n)
                },
    {
        let ghost es = self@;
        match self.find(name) {
            Some(j) => {
                proof {
                    lemma_lookup_at(es, name@, j as int);
                }
                let e = self.entries.remove(j);
                proof {
                    assert(self@ =~= es.remove(j as int));
                    assert forall|i: int, k: int| 0 <= i < k < self@.len() implies (
                    #[trigger] self@[i]).0 != (#[trigger] self@[k]).0 by {
                        let i0 = if i < j { i } else { i + 1 };
                        let k0 = if k < j { k } else { k + 1 };
                        assert(self@[i] == es[i0]);
                        assert(self@[k] == es[k0]);
                    }
                    assert forall|n: Seq<char>|
                        final(self).spec_lookup(n) == (if n == name@ {
                            None::<Seq<char>>
                        } else {
                            lookup_in(es, n)
                        }) by {
                        if n == name@ {
                            lemma_lookup_none_iff(self@, n);
                            assert forall|k: int| 0 <= k < self@.len() implies (
                            #[trigger] self@[k]).0 != n by {
                                let k0 = if k < j { k } else { k + 1 };
                                assert(self@[k] == es[k0]);
                            }
                        } else {
                            lemma_lookup_remove_other(es, j as int, n);
                        }
                    }
                }
                Some(e.1)
            },
            None => {
                proof {
                    lemma_lookup_none_iff(es, name@);
                }
                None
            },
        }
    }

    /// Store a prompt under a name, replacing what the name held before.
    pub fn set(&mut self, name: String, prompt: String)
        requires
            old(self).wf(),
        ensures
            final(self).wf(),
            forall|n: Seq<char>|
                final(self).spec_lookup(n) == if n == name@ {
                    Some(prompt@)
                } else {
                    old(self).spec_lookup(n)
                },
    {
        let ghost before: Presets = *old(self);
        let _ = self.remove(name.as_str());
        let ghost pmid: Presets = *self;
        let ghost e = (name@, prompt@);
        self.entries.push((name, prompt));
        proof {
            assert(self@ =~= pmid@.push(e));
            assert(pmid.spec_lookup(name@) is None);
            lemma_lookup_none_iff(pmid@, name@);
            assert forall|i: int, k: int| 0 <= i < k < self@.len() implies (
            #[trigger] self@[i]).0 != (#[trigger] self@[k]).0 by {
                if k < self@.len() - 1 {
                    assert(self@[i] == pmid@[i]);
                    assert(self@[k] == pmid@[k]);
                } else {
                    assert(self@[k] == e);
                    assert(self@[i] == pmid@[i]);
                }
            }
            assert forall|n: Seq<char>|
                (*self).spec_lookup(n) == (if n == name@ {
                    Some(prompt@)
                } else {
                    before.spec_lookup(n)
                }) by {
                lemma_lookup_push(pmid@, e, n);
                assert(pmid.spec_lookup(n) == (if n == name@ {
                    None::<Seq<char>>
                } else {
                    before.spec_lookup(n)
                }));
            }
        }
    }
}

/// The persisted settings of the tool.
pub struct Settings {
    /// The provider to send questions to.
    pub provider: Option<AIProvider>,
    /// The model to name in requests.
    pub model: Option<AIModel>,
    /// The request timeout in seconds.
    pub timeout: Option<u64>,
    /// The named prompt presets.
    pub presets: Option<Presets>,
    /// DeepSeek API key.
    pub deepseek_key: Option<String>,
    /// Grok API key.
    pub grok_key: Option<String>,
    /// Qwen API key.
    pub qwen_key: Option<String>,
}

impl Settings {
    /// The preset store is well formed when present.
    pub open spec fn wf(self) -> bool {
        match self.presets {
            Some(p) => p.wf(),
            None => true,
        }
    }

    /// The prompt a preset name resolves to, if any.
    pub open spec fn spec_preset_lookup(self, name: Seq<char>) -> Option<Seq<char>> {
        match self.presets {
            Some(p) => p.spec_lookup(name),
            None => None,
        }
    }

    /// Whether the settings file ought to be written back: it already exists,
    /// or some field is still unset and writing records the defaults.
    pub fn should_persist(&self, config_exists: bool) -> (r: bool)
        ensures
            r == (config_exists || self.provider is None || self.model is None || self.timeout
                is None || self.presets is None || self.deepseek_key is None || self.grok_key
                is None || self.qwen_key is None),
    {
        config_exists || self.provider.is_none() || self.model.is_none() || self.timeout.is_none()
            || self.presets.is_none() || self.deepseek_key.is_none() || self.grok_key.is_none()
            || self.qwen_key.is_none()
    }
}

/// Which models each provider serves.
pub open spec fn model_allowed(p: AIProvider, m: AIModel) -> bool {
    match p {
        AIProvider::DeepSeek => m is DeepSeekChat,
        AIProvider::Grok => m is Grok3,
        AIProvider::Qwen => m is QwenPlus || m is QwenFlash,
    }
}

/// The key field that belongs to a provider.
pub open spec fn provider_key(s: Settings, p: AIProvider) -> Option<String> {
    match p {
        AIProvider::DeepSeek => s.deepseek_key,
        AIProvider::Grok => s.grok_key,
        AIProvider::Qwen => s.qwen_key,
    }
}

/// A key is usable when it is set and not empty.
pub open spec fn key_usable(k: Option<String>) -> bool {
    match k {
        Some(s) => s@.len() > 0,
        None => false,
    }
}

/// What validation decides: the first missing piece in the fixed order —
/// provider, model, the provider's key, the provider/model fit — or success.
pub open spec fn validation_of(s: Settings) -> Result<(), ConfigError> {
    match (s.provider, s.model) {
        (None, _) => Err(ConfigError::ProviderNotSet),
        (Some(_), None) => Err(ConfigError::ModelNotSet),
        (Some(p), Some(m)) => if !key_usable(provider_key(s, p)) {
            Err(ConfigError::ApiKeyNotSet(p))
        } else if !model_allowed(p, m) {
            Err(ConfigError::ModelNotSupported(p))
        } else {
            Ok(())
        },
    }
}

/// Check that provider, model and the provider's key are set, the key is not
/// empty, and the model belongs to the provider — before any network call.
pub fn validate_ai_settings(settings: &Settings) -> (r: Result<(), ConfigError>)
    ensures
        r == validation_of(*settings),
{
    let p = match &settings.provider {
        None => {
            return Err(ConfigError::ProviderNotSet);
        },
        Some(p) => *p,
    };
    let m = match &settings.model {
        None => {
            return Err(ConfigError::ModelNotSet);
        },
        Some(m) => *m,
    };
    let key_ok = match p {
        AIProvider::DeepSeek => match &settings.deepseek_key {
            Some(k) => !k.as_str().is_empty(),
            None => false,
        },
        AIProvider::Grok => match &settings.grok_key {
            Some(k) => !k.as_str().is_empty(),
            None => false,
        },
        AIProvider::Qwen => match &settings.qwen_key {
            Some(k) => !k.as_str().is_empty(),
            None => false,
        },
    };
    if !key_ok {
        return Err(ConfigError::ApiKeyNotSet(p));
    }
    let model_ok = match (p, m) {
        (AIProvider::DeepSeek, AIModel::DeepSeekChat) => true,
        (AIProvider::Grok, AIModel::Grok3) => true,
        (AIProvider::Qwen, AIModel::QwenPlus) => true,
        (AIProvider::Qwen, AIModel::QwenFlash) => true,
        _ => false,
    };
    if !model_ok {
        return Err(ConfigError::ModelNotSupported(p));
    }
    Ok(())
}

/// The words of a prompt joined with single spaces.
pub open spec fn joined_words(ws: Seq<Seq<char>>) -> Seq<char>
    decreases ws.len(),
{
    if ws.len() == 0 {
        Seq::empty()
    } else if ws.len() == 1 {
        ws[0]
    } else {
        joined_words(ws.drop_last()) + " "@ + ws.last()
    }
}

/// Join prompt words with single spaces.
pub fn join_words(ws: &Vec<String>) -> (r: String)
    ensures
        r@ == joined_words(ws.deep_view()),
{
    let ghost dv = ws.deep_view();
    let mut r = String::new();
    proof {
        assert(r@ =~= joined_words(dv.subrange(0, 0)));
    }
    let mut i: usize = 0;
    while i < ws.len()
        invariant
            i <= ws@.len(),
            dv == ws.deep_view(),
            r@ == joined_words(dv.subrange(0, i as int)),
        decreases ws@.len() - i,
    {
        let ghost pre = dv.subrange(0, i as int);
        let ghost cur = dv.subrange(0, i as int + 1);
        proof {
            assert(cur.drop_last() =~= pre);
            assert(cur.last() == dv[i as int]);
        }
        if i > 0 {
            r.append(" ");
        }
        r.append(ws[i].as_str());
        proof {
            if i == 0 {
                assert(cur.len() == 1);
                assert(joined_words(cur) == cur[0]);
            }
            assert(r@ =~= joined_words(cur));
        }
        i = i + 1;
    }
    proof {
        assert(dv.subrange(0, dv.len() as int) =~= dv);
    }
    r
}

/// Settings equality on everything but the preset store.
pub open spec fn eq_except_presets(a: Settings, b: Settings) -> bool {
    a.provider == b.provider && a.model == b.model && a.timeout == b.timeout && a.deepseek_key
        == b.deepseek_key && a.grok_key == b.grok_key && a.qwen_key == b.qwen_key
}

/// What a preset subcommand did.
pub enum PresetOutcome {
    /// The preset now holds this joined prompt.
    Stored(String),
    /// Nothing changed; the caller reads the entries to show them.
    Listed,
    /// The removed preset's prompt, or nothing when the name was unknown.
    Removed(Option<String>),
}

/// Apply one preset subcommand to the settings: storing joins the prompt
/// words with spaces and replaces what the name held; listing changes
/// nothing; removing hands the removed prompt back. Everything outside the
/// preset store stays as it was.
pub fn apply_preset_command(settings: &mut Settings, cmd: PresetSubcommand) -> (r: PresetOutcome)
    requires
        old(settings).wf(),
    ensures
        final(settings).wf(),
        eq_except_presets(*final(settings), *old(settings)),
        (cmd matches PresetSubcommand::Put(args) ==> {
            &&& (r matches PresetOutcome::Stored(j) && j@ == joined_words(args.prompt.deep_view()))
            &&& forall|n: Seq<char>|
                final(settings).spec_preset_lookup(n) == if n == args.name@ {
                    Some(joined_words(args.prompt.deep_view()))
                } else {
                    old(settings).spec_preset_lookup(n)
                }
        }),
        (cmd matches PresetSubcommand::List ==> *final(settings) == *old(settings) && r
            is Listed),
        (cmd matches PresetSubcommand::Remove(args) ==> {
            &&& (r matches PresetOutcome::Removed(p) && p.deep_view() == old(
                settings,
            ).spec_preset_lookup(args.name@))
            &&& forall|n: Seq<char>|
                final(settings).spec_preset_lookup(n) == if n == args.name@ {
                    None::<Seq<char>>
                } else {
                    old(settings).spec_preset_lookup(n)
                }
        }),
{
    match cmd {
        PresetSubcommand::Put(args) => {
            let joined = join_words(&args.prompt);
            let mut ps = match settings.presets.take() {
                Some(p) => p,
                None => Presets::new(),
            };
            ps.set(args.name, joined.clone());
            settings.presets = Some(ps);
            PresetOutcome::Stored(joined)
        },
        PresetSubcommand::List => PresetOutcome::Listed,
        PresetSubcommand::Remove(args) => {
            match settings.presets.take() {
                Some(mut p) => {
                    let removed = p.remove(args.name.as_str());
                    settings.presets = Some(p);
                    PresetOutcome::Removed(removed)
                },
                None => {
                    settings.presets = None;
                    PresetOutcome::Removed(None)
                },
            }
        },
    }
}

/// Apply one configuration subcommand: showing changes nothing; the other
/// three each set their field and leave the rest alone.
pub fn apply_config_command(settings: &mut Settings, cmd: &ConfigSubcommand)
    ensures
        final(settings).presets == old(settings).presets,
        final(settings).deepseek_key == old(settings).deepseek_key,
        final(settings).grok_key == old(settings).grok_key,
        final(settings).qwen_key == old(settings).qwen_key,
        (cmd matches ConfigSubcommand::Show ==> *final(settings) == *old(settings)),
        (cmd matches ConfigSubcommand::Provider(a) ==> final(settings).provider == Some(a.provider)
            && final(settings).model == old(settings).model
            && final(settings).timeout == old(settings).timeout),
        (cmd matches ConfigSubcommand::Timeout(a) ==> final(settings).timeout == Some(a.timeout)
            && final(settings).provider == old(settings).provider
            && final(settings).model == old(settings).model),
        (cmd matches ConfigSubcommand::Model(a) ==> final(settings).model == Some(a.model)
            && final(settings).provider == old(settings).provider
            && final(settings).timeout == old(settings).timeout),
{
    match cmd {
        ConfigSubcommand::Show => {},
        ConfigSubcommand::Provider(a) => {
            settings.provider = Some(a.provider);
        },
        ConfigSubcommand::Timeout(a) => {
            settings.timeout = Some(a.timeout);
        },
        ConfigSubcommand::Model(a) => {
            settings.model = Some(a.model);
        },
    }
}

} // verus!
