//! The initialization config of the tunnel, built by a single validating
//! constructor from the entries of the caller's config object: every
//! accepted key is listed and any other key is refused.
use vstd::prelude::*;
use vstd::string::*;

verus! {

/// The value of a config entry, as far as the constructor reads it.
pub enum ConfigValue {
    Text(String),
    /// An array; an element that is not a string is `None`.
    List(Vec<Option<String>>),
    /// A number, or any other value.
    Other,
}

/// Why a config object was refused.
#[derive(Clone, Copy, Debug, PartialEq, Eq, Structural)]
pub enum ConfigError {
    /// A key that the config does not have.
    UnexpectedKey,
    /// A value (or an array element) that should be a string.
    ExpectedText,
    /// A value that should be an array.
    ExpectedList,
}

/// The tunnel's initialization config.
pub struct InitConfig {
    pub proxy: String,
    pub static_paths: Vec<String>,
    pub providers: Vec<String>,
}

/// A config as text: proxy, static paths and providers.
pub type ConfigView = (Seq<char>, Seq<Seq<char>>, Seq<Seq<char>>);

/// The texts of an array whose elements are all strings.
pub open spec fn texts_of(items: Seq<Option<String>>) -> Option<Seq<Seq<char>>>
    decreases items.len(),
{
    if items.len() == 0 {
        Some(Seq::empty())
    } else {
        match (texts_of(items.drop_last()), items.last()) {
            (Some(t), Some(s)) => Some(t.push(s@)),
            _ => None,
        }
    }
}

/// The texts that an array value adds, or why it is refused.
pub open spec fn list_entry(value: ConfigValue) -> Result<Seq<Seq<char>>, ConfigError> {
    match value {
        ConfigValue::List(items) => match texts_of(items@) {
            Some(t) => Ok(t),
            None => Err(ConfigError::ExpectedText),
        },
        _ => Err(ConfigError::ExpectedList),
    }
}

/// The config after entry `key`, `value` is read into `c`.
pub open spec fn apply_entry(c: ConfigView, key: Seq<char>, value: ConfigValue) -> Result<ConfigView, ConfigError> {
    let (proxy, paths, providers) = c;
    if key == "providers"@ {
        match list_entry(value) {
            Ok(t) => Ok((proxy, paths, providers + t)),
            Err(e) => Err(e),
        }
    } else if key == "proxy"@ {
        match value {
            ConfigValue::Text(s) => Ok((s@, paths, providers)),
            _ => Err(ConfigError::ExpectedText),
        }
    } else if key == "staticPath"@ {
        match value {
            ConfigValue::Text(s) => Ok((proxy, paths.push(s@), providers)),
            _ => Err(ConfigError::ExpectedText),
        }
    } else if key == "staticPaths"@ {
        match list_entry(value) {
            Ok(t) => Ok((proxy, paths + t, providers)),
            Err(e) => Err(e),
        }
    } else if key == "cacheAssetLimit"@ {
        Ok(c)
    } else {
        Err(ConfigError::UnexpectedKey)
    }
}

/// The config that `entries`, read in order from the empty config, give.
pub open spec fn config_of(entries: Seq<(String, ConfigValue)>) -> Result<ConfigView, ConfigError>
    decreases entries.len(),
{
    if entries.len() == 0 {
        Ok((Seq::empty(), Seq::empty(), Seq::empty()))
    } else {
        match config_of(entries.drop_last()) {
            Ok(c) => apply_entry(c, entries.last().0@, entries.last().1),
            Err(e) => Err(e),
        }
    }
}

/// A list of texts as its characters.
pub open spec fn texts_view(v: Seq<String>) -> Seq<Seq<char>> {
    v.map_values(|s: String| s@)
}

impl InitConfig {
    /// The config as text.
    pub open spec fn view_spec(&self) -> ConfigView {
        (self.proxy@, texts_view(self.static_paths@), texts_view(self.providers@))
    }

    /// Reads the config from its entries, in order: `providers` (an array of
    /// strings), `proxy` (a string), `staticPath` (a string, kept for older
    /// callers), `staticPaths` (an array of strings) and `cacheAssetLimit`
    /// (applied by the host environment, not here). Any other key, or a
    /// value of another shape, refuses the whole config.
    pub fn new(entries: &Vec<(String, ConfigValue)>) -> (r: Result<InitConfig, ConfigError>)
        ensures
            match r {
                Ok(c) => config_of(entries@) == Ok::<ConfigView, ConfigError>(c.view_spec()),
                Err(e) => config_of(entries@) == Err::<ConfigView, ConfigError>(e),
            },
    {
        let mut config = InitConfig { proxy: String::new(), static_paths: Vec::new(), providers: Vec::new() };
        assert(config.view_spec() =~= (Seq::<char>::empty(), Seq::<Seq<char>>::empty(), Seq::<Seq<char>>::empty()));
        let mut i: usize = 0;
        while i < entries.len()
            invariant
                i <= entries@.len(),
                config_of(entries@.subrange(0, i as int)) == Ok::<ConfigView, ConfigError>(config.view_spec()),
            decreases entries.len() - i,
        {
            let ghost before = config.view_spec();
            assert(entries@.subrange(0, i + 1).drop_last() =~= entries@.subrange(0, i as int));
            assert(entries@.subrange(0, i + 1).last() == entries@[i as int]);
            assert(config_of(entries@.subrange(0, i + 1)) == apply_entry(before, entries@[i as int].0@, entries@[i as int].1));
            proof {
                if config_of(entries@.subrange(0, i + 1)) is Err {
                    lemma_config_error_stays(entries@, i as int + 1);
                }
            }
            let key = &entries[i].0;
            let value = &entries[i].1;
            if *key == String::from_str("providers") {
                match append_texts(&mut config.providers, value) {
                    Err(e) => return Err(e),
                    Ok(()) => {},
                }
            } else if *key == String::from_str("proxy") {
                match value {
                    ConfigValue::Text(s) => config.proxy = s.clone(),
                    _ => return Err(ConfigError::ExpectedText),
                }
            } else if *key == String::from_str("staticPath") {
                match value {
                    ConfigValue::Text(s) => {
                        let ghost old_paths = config.static_paths@;
                        config.static_paths.push(s.clone());
                        assert(texts_view(config.static_paths@) =~= texts_view(old_paths).push(s@));
                    },
                    _ => return Err(ConfigError::ExpectedText),
                }
            } else if *key == String::from_str("staticPaths") {
                match append_texts(&mut config.static_paths, value) {
                    Err(e) => return Err(e),
                    Ok(()) => {},
                }
            } else if *key == String::from_str("cacheAssetLimit") {
            } else {
                return Err(ConfigError::UnexpectedKey);
            }
            assert(config_of(entries@.subrange(0, i + 1)) == apply_entry(before, entries@[i as int].0@, entries@[i as int].1));
            assert(config.view_spec() =~= apply_entry(before, key@, *value)->Ok_0);
            i = i + 1;
        }
        assert(entries@.subrange(0, entries@.len() as int) =~= entries@);
        Ok(config)
    }
}

/// Appends the strings of an array value to `texts`; refuses any other
/// value, or an array with an element that is not a string (leaving `texts`
/// partly extended).
fn append_texts(texts: &mut Vec<String>, value: &ConfigValue) -> (r: Result<(), ConfigError>)
    ensures
        match r {
            Ok(()) => list_entry(*value) matches Ok(t) && texts_view(final(texts)@) == texts_view(old(texts)@) + t,
            Err(e) => list_entry(*value) == Err::<Seq<Seq<char>>, ConfigError>(e),
        },
{
    match value {
        ConfigValue::List(items) => {
            if append_items(texts, items) {
                Ok(())
            } else {
                Err(ConfigError::ExpectedText)
            }
        },
        _ => Err(ConfigError::ExpectedList),
    }
}

/// Appends the elements of `items` to `texts` where all of them are strings.
fn append_items(texts: &mut Vec<String>, items: &Vec<Option<String>>) -> (r: bool)
    ensures
        r == texts_of(items@) is Some,
        r ==> texts_view(final(texts)@) == texts_view(old(texts)@) + texts_of(items@)->0,
{
    let ghost start = texts_view(texts@);
    let mut i: usize = 0;
    while i < items.len()
        invariant
            i <= items@.len(),
            texts_of(items@.subrange(0, i as int)) matches Some(t) && texts_view(texts@) == start + t,
        decreases items.len() - i,
    {
        assert(items@.subrange(0, i + 1).drop_last() =~= items@.subrange(0, i as int));
        assert(items@.subrange(0, i + 1).last() == items@[i as int]);
        match &items[i] {
            Some(s) => {
                let ghost before = texts@;
                texts.push(s.clone());
                assert(texts_view(texts@) =~= texts_view(before).push(s@));
            },
            None => {
                proof {
                    lemma_texts_of_prefix(items@, i as int + 1);
                }
                return false;
            },
        }
        i = i + 1;
    }
    assert(items@.subrange(0, items@.len() as int) =~= items@);
    true
}

/// Once a prefix of the entries is refused, so are all of them, for the
/// same reason.
proof fn lemma_config_error_stays(entries: Seq<(String, ConfigValue)>, n: int)
    requires
        0 <= n <= entries.len(),
        config_of(entries.subrange(0, n)) is Err,
    ensures
        config_of(entries) == config_of(entries.subrange(0, n)),
    decreases entries.len() - n,
{
    if n < entries.len() {
        assert(entries.subrange(0, n + 1).drop_last() =~= entries.subrange(0, n));
        lemma_config_error_stays(entries, n + 1);
    } else {
        assert(entries.subrange(0, n) =~= entries);
    }
}

/// An array with a non-string element among its first `n` elements has no
/// texts.
proof fn lemma_texts_of_prefix(items: Seq<Option<String>>, n: int)
    requires
        0 <= n <= items.len(),
        texts_of(items.subrange(0, n)) is None,
    ensures
        texts_of(items) is None,
    decreases items.len() - n,
{
    if n < items.len() {
        assert(items.subrange(0, n + 1).drop_last() =~= items.subrange(0, n));
        lemma_texts_of_prefix(items, n + 1);
    } else {
        assert(items.subrange(0, n) =~= items);
    }
}

} // verus!
