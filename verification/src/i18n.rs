//! Interface translations, backed by Project Fluent bundles.
//!
//! The front end asks for the whole dictionary of a language at once:
//! every key of the UI whose message the language's bundle has, formatted
//! without arguments. Russian is the initial language; any language
//! other than Russian is served from the English bundle.

use vstd::prelude::*;
use crate::text::str_eq;

verus! {

#[verifier::external_type_specification]
#[verifier::external_body]
#[verifier::reject_recursive_types(R)]
#[verifier::reject_recursive_types(M)]
pub struct ExFluentBundle<R, M>(fluent_bundle::bundle::FluentBundle<R, M>);

#[verifier::external_type_specification]
#[verifier::external_body]
pub struct ExFluentResource(fluent_bundle::FluentResource);

#[verifier::external_type_specification]
#[verifier::external_body]
pub struct ExIntlLangMemoizer(intl_memoizer::concurrent::IntlLangMemoizer);

/// What a bundle holds: for each message id that has a value, the
/// value's text formatted without arguments.
pub uninterp spec fn bundle_messages(
    b: fluent_bundle::bundle::FluentBundle<fluent_bundle::FluentResource, intl_memoizer::concurrent::IntlLangMemoizer>,
) -> Map<Seq<char>, Seq<char>>;

/// A message's text in a bundle, formatted without arguments; `None`
/// when the bundle has no such message or the message has no value.
pub open spec fn bundle_text(
    b: fluent_bundle::bundle::FluentBundle<fluent_bundle::FluentResource, intl_memoizer::concurrent::IntlLangMemoizer>,
    key: Seq<char>,
) -> Option<Seq<char>> {
    if bundle_messages(b).contains_key(key) {
        Some(bundle_messages(b)[key])
    } else {
        None
    }
}

/// The messages of a bundle built for locale `lang` from FTL source
/// `src` (as `bundle_messages` reads them); `None` when the locale or the
/// source does not parse or the resource does not add cleanly.
pub uninterp spec fn ftl_messages(lang: Seq<char>, src: Seq<char>) -> Option<Map<Seq<char>, Seq<char>>>;

/// Builds the bundle of one of the two UI languages from FTL source:
/// parses `src` with `FluentResource::try_new`, parses `lang` as a
/// `unic_langid::LanguageIdentifier`, makes the bundle with
/// `FluentBundle::new_concurrent`, adds the resource with `add_resource`,
/// and turns off Unicode isolation with `set_use_isolating(false)`.
/// Claimed: it succeeds exactly when `ftl_messages` names a result for
/// the arguments, and the bundle then holds those messages. Each failure
/// is turned into its text.
#[verifier::external_body]
fn parse_bundle(lang: &str, src: &str) -> (r: Result<fluent_bundle::bundle::FluentBundle<fluent_bundle::FluentResource, intl_memoizer::concurrent::IntlLangMemoizer>, String>)
    requires
        lang@ == "ru"@ || lang@ == "en"@,
    ensures
        r is Ok <==> ftl_messages(lang@, src@) is Some,
        r matches Ok(b) ==> Some(bundle_messages(b)) == ftl_messages(lang@, src@),
{
    let res = fluent_bundle::FluentResource::try_new(src.to_string())
        .map_err(|(_, errs)| format!("FTL parse ({lang}): {errs:?}"))?;
    let id: unic_langid::LanguageIdentifier = lang.parse().map_err(|e| format!("locale ({lang}): {e:?}"))?;
    let mut bundle = fluent_bundle::bundle::FluentBundle::new_concurrent(vec![id]);
    bundle.add_resource(res).map_err(|errs| format!("add_resource ({lang}): {errs:?}"))?;
    bundle.set_use_isolating(false);
    Ok(bundle)
}

/// Formats message `key` of `bundle` with an empty argument list:
/// `FluentBundle::get_message`, then the message's value, then
/// `FluentBundle::format_pattern`. Claimed: the result is the text that
/// the bundle holds for the key (`bundle_messages`), `None` when there is
/// no message or no value. Formatting errors are dropped, as the caller
/// does not use them.
#[verifier::external_body]
fn format_message(
    bundle: &fluent_bundle::bundle::FluentBundle<fluent_bundle::FluentResource, intl_memoizer::concurrent::IntlLangMemoizer>,
    key: &str,
) -> (r: Option<String>)
    ensures
        match r {
            Some(s) => bundle_messages(*bundle).contains_key(key@) && bundle_messages(*bundle)[key@] == s@,
            None => !bundle_messages(*bundle).contains_key(key@),
        },
{
    let msg = bundle.get_message(key)?;
    let pattern = msg.value()?;
    let args = fluent_bundle::FluentArgs::new();
    let mut errors = Vec::new();
    Some(bundle.format_pattern(pattern, Some(&args), &mut errors).into_owned())
}

/// The keys that the front end expects in a dictionary.
pub open spec fn ui_keys() -> Seq<Seq<char>> {
    seq![
        "app-title"@, "app-subtitle"@, "nav-devices"@, "nav-sync"@, "nav-settings"@,
        "engine-start"@, "engine-stop"@, "device-add"@, "device-remove"@, "device-source-badge"@,
        "device-source-note"@, "device-input-only-badge"@, "device-input-only-note"@, "show-all-devices"@,
        "no-active-outputs"@, "doubling-note"@, "sync-hint"@, "sync-target-latency"@, "volume-label"@,
        "latency-label"@, "language-label"@, "language-ru"@, "language-en"@, "status-ready"@,
        "status-engine-started"@, "status-engine-stopped"@, "status-output-added"@,
        "status-output-removed"@, "status-devices-refreshed"@, "feedback-default-blocked"@,
    ]
}

/// The keys that the front end expects in a dictionary.
pub fn ui_key_list() -> (r: Vec<&'static str>)
    ensures
        r@.map_values(|s: &str| s@) == ui_keys(),
{
    let r = vec![
        "app-title", "app-subtitle", "nav-devices", "nav-sync", "nav-settings",
        "engine-start", "engine-stop", "device-add", "device-remove", "device-source-badge",
        "device-source-note", "device-input-only-badge", "device-input-only-note", "show-all-devices",
        "no-active-outputs", "doubling-note", "sync-hint", "sync-target-latency", "volume-label",
        "latency-label", "language-label", "language-ru", "language-en", "status-ready",
        "status-engine-started", "status-engine-stopped", "status-output-added",
        "status-output-removed", "status-devices-refreshed", "feedback-default-blocked",
    ];
    assert(r@.map_values(|s: &str| s@) =~= ui_keys());
    r
}

/// The dictionary entries of `keys` in bundle `b`: each key that has a
/// text, with its text, in order.
pub open spec fn dictionary_entries(
    keys: Seq<Seq<char>>,
    b: fluent_bundle::bundle::FluentBundle<fluent_bundle::FluentResource, intl_memoizer::concurrent::IntlLangMemoizer>,
) -> Seq<(Seq<char>, Seq<char>)>
    decreases keys.len(),
{
    if keys.len() == 0 {
        Seq::empty()
    } else {
        let rest = dictionary_entries(keys.drop_last(), b);
        match bundle_text(b, keys.last()) {
            Some(t) => rest.push((keys.last(), t)),
            None => rest,
        }
    }
}

/// The front end's keys are these thirty texts, each once: the UI asks
/// for every one of them.
pub proof fn law_ui_keys_are_the_front_end_keys()
    ensures
        ui_keys() == seq![
            "app-title"@, "app-subtitle"@, "nav-devices"@, "nav-sync"@, "nav-settings"@,
            "engine-start"@, "engine-stop"@, "device-add"@, "device-remove"@, "device-source-badge"@,
            "device-source-note"@, "device-input-only-badge"@, "device-input-only-note"@, "show-all-devices"@,
            "no-active-outputs"@, "doubling-note"@, "sync-hint"@, "sync-target-latency"@, "volume-label"@,
            "latency-label"@, "language-label"@, "language-ru"@, "language-en"@, "status-ready"@,
            "status-engine-started"@, "status-engine-stopped"@, "status-output-added"@,
            "status-output-removed"@, "status-devices-refreshed"@, "feedback-default-blocked"@,
        ],
        ui_keys().len() == 30,
{
}

/// A dictionary holds exactly the keys that the bundle translates, each
/// with the bundle's text: every key of the list that has a text is in
/// it, and everything in it is such a key with its text.
pub proof fn law_dictionary_holds_the_translated_keys(
    keys: Seq<Seq<char>>,
    b: fluent_bundle::bundle::FluentBundle<fluent_bundle::FluentResource, intl_memoizer::concurrent::IntlLangMemoizer>,
)
    ensures
        forall|j: int| 0 <= j < keys.len() && bundle_messages(b).contains_key(#[trigger] keys[j]) ==> dictionary_entries(
            keys,
            b,
        ).contains((keys[j], bundle_messages(b)[keys[j]])),
        forall|e: (Seq<char>, Seq<char>)| #[trigger] dictionary_entries(keys, b).contains(e) ==> keys.contains(e.0)
            && bundle_messages(b).contains_key(e.0) && bundle_messages(b)[e.0] == e.1,
    decreases keys.len(),
{
    if keys.len() > 0 {
        let init = keys.drop_last();
        let rest = dictionary_entries(init, b);
        law_dictionary_holds_the_translated_keys(init, b);
        let d = dictionary_entries(keys, b);
        assert forall|j: int| 0 <= j < keys.len() && bundle_messages(b).contains_key(#[trigger] keys[j]) implies d.contains(
            (keys[j], bundle_messages(b)[keys[j]]),
        ) by {
            if j < keys.len() - 1 {
                assert(init[j] == keys[j]);
                let k = choose|k: int| 0 <= k < rest.len() && rest[k] == (keys[j], bundle_messages(b)[keys[j]]);
                assert(d[k] == rest[k]);
            } else {
                assert(d[d.len() - 1] == (keys[j], bundle_messages(b)[keys[j]]));
            }
        }
        assert forall|e: (Seq<char>, Seq<char>)| #[trigger] d.contains(e) implies keys.contains(e.0)
            && bundle_messages(b).contains_key(e.0) && bundle_messages(b)[e.0] == e.1 by {
            let k = choose|k: int| 0 <= k < d.len() && d[k] == e;
            if k < rest.len() {
                assert(rest[k] == e);
                assert(rest.contains(e));
                let j = choose|j: int| 0 <= j < init.len() && init[j] == e.0;
                assert(keys[j] == e.0);
            } else {
                assert(keys[keys.len() - 1] == e.0);
            }
        }
    }
}

/// The texts of a dictionary.
pub open spec fn entry_texts(v: Seq<(String, String)>) -> Seq<(Seq<char>, Seq<char>)> {
    v.map_values(|e: (String, String)| (e.0@, e.1@))
}

/// The Russian and English bundles and the language last chosen.
pub struct I18n {
    ru: fluent_bundle::bundle::FluentBundle<fluent_bundle::FluentResource, intl_memoizer::concurrent::IntlLangMemoizer>,
    en: fluent_bundle::bundle::FluentBundle<fluent_bundle::FluentResource, intl_memoizer::concurrent::IntlLangMemoizer>,
    current: String,
}

impl I18n {
    /// The Russian bundle.
    pub closed spec fn ru_spec(&self) -> fluent_bundle::bundle::FluentBundle<fluent_bundle::FluentResource, intl_memoizer::concurrent::IntlLangMemoizer> {
        self.ru
    }

    /// The English bundle.
    pub closed spec fn en_spec(&self) -> fluent_bundle::bundle::FluentBundle<fluent_bundle::FluentResource, intl_memoizer::concurrent::IntlLangMemoizer> {
        self.en
    }

    /// The language last chosen.
    pub closed spec fn current_spec(&self) -> Seq<char> {
        self.current@
    }

    /// The bundle that serves `lang`: Russian for `"ru"`, English
    /// otherwise.
    pub open spec fn bundle_for(&self, lang: Seq<char>) -> fluent_bundle::bundle::FluentBundle<fluent_bundle::FluentResource, intl_memoizer::concurrent::IntlLangMemoizer> {
        if lang == "ru"@ {
            self.ru_spec()
        } else {
            self.en_spec()
        }
    }

    /// Translations from the FTL sources of the two languages; Russian is
    /// current. Fails when either source does not build into a bundle.
    pub fn from_ftl(ru_src: &str, en_src: &str) -> (r: Result<I18n, String>)
        ensures
            r is Ok <==> (ftl_messages("ru"@, ru_src@) is Some && ftl_messages("en"@, en_src@) is Some),
            r matches Ok(i) ==> {
                &&& Some(bundle_messages(i.ru_spec())) == ftl_messages("ru"@, ru_src@)
                &&& Some(bundle_messages(i.en_spec())) == ftl_messages("en"@, en_src@)
                &&& i.current_spec() == "ru"@
            },
    {
        let ru = match parse_bundle("ru", ru_src) {
            Ok(b) => b,
            Err(e) => {
                return Err(e);
            },
        };
        let en = match parse_bundle("en", en_src) {
            Ok(b) => b,
            Err(e) => {
                return Err(e);
            },
        };
        Ok(I18n { ru, en, current: "ru".to_owned() })
    }

    /// The bundle that serves `lang`, for formatting with arguments.
    pub fn bundle(&self, lang: &str) -> (r: &fluent_bundle::bundle::FluentBundle<fluent_bundle::FluentResource, intl_memoizer::concurrent::IntlLangMemoizer>)
        ensures
            *r == self.bundle_for(lang@),
    {
        if str_eq(lang, "ru") {
            &self.ru
        } else {
            &self.en
        }
    }

    /// Chooses the current language, if it is one of the two known ones.
    pub fn set_language(&mut self, lang: &str)
        ensures
            final(self).ru_spec() == old(self).ru_spec(),
            final(self).en_spec() == old(self).en_spec(),
            (lang@ == "ru"@ || lang@ == "en"@) ==> final(self).current_spec() == lang@,
            !(lang@ == "ru"@ || lang@ == "en"@) ==> final(self).current_spec() == old(self).current_spec(),
    {
        if str_eq(lang, "ru") || str_eq(lang, "en") {
            self.current = lang.to_owned();
        }
    }

    /// The language last chosen.
    pub fn current_language(&self) -> (r: String)
        ensures
            r@ == self.current_spec(),
    {
        self.current.clone()
    }

    /// Every UI key that the bundle for `lang` translates, with its text,
    /// in the order of the key list.
    pub fn dictionary(&self, lang: &str) -> (r: Vec<(String, String)>)
        ensures
            entry_texts(r@) == dictionary_entries(ui_keys(), self.bundle_for(lang@)),
    {
        let bundle = if str_eq(lang, "ru") {
            &self.ru
        } else {
            &self.en
        };
        let keys = ui_key_list();
        let ghost ks = keys@.map_values(|s: &str| s@);
        let mut out: Vec<(String, String)> = Vec::new();
        let mut i: usize = 0;
        while i < keys.len()
            invariant
                i <= keys@.len(),
                ks == keys@.map_values(|s: &str| s@),
                entry_texts(out@) == dictionary_entries(ks.take(i as int), *bundle),
            decreases keys@.len() - i,
        {
            let key = keys[i];
            proof {
                assert(ks.take(i + 1).drop_last() =~= ks.take(i as int));
                assert(ks.take(i + 1).last() == key@);
            }
            match format_message(bundle, key) {
                Some(text) => {
                    let ghost before = out@;
                    let ghost t = text@;
                    out.push((key.to_owned(), text));
                    assert(entry_texts(out@) =~= entry_texts(before).push((key@, t)));
                },
                None => {},
            }
            i = i + 1;
        }
        assert(ks.take(keys@.len() as int) =~= ks);
        out
    }
}

} // verus!
