//! The manifest: TOML frontmatter delimited by `---` lines, followed by the
//! prompt text. The frontmatter grammar and the mapping of its entries onto
//! the configuration are verified; the TOML text itself is handed to the
//! `toml` crate behind trusted declarations.
use vstd::prelude::*;

use crate::config::Config;
use crate::config::Provider;
use crate::config::TonePreset;
use crate::error::Error;
use crate::error::ErrorKind;
use crate::text;

verus! {

/// The entire parsed content of the manifest file.
#[derive(Debug)]
pub struct Manifest {
    pub config: Config,
    pub user_prompt: String,
}

#[verifier::external_type_specification]
#[verifier::external_body]
#[verifier::reject_recursive_types(K)]
#[verifier::reject_recursive_types(V)]
pub struct ExTomlMap<K, V>(toml::map::Map<K, V>);

#[verifier::external_type_specification]
#[verifier::external_body]
pub struct ExTomlValue(toml::Value);

/// The set of keys a parsed table holds, of whatever value type.
pub uninterp spec fn table_keys(t: toml::map::Map<String, toml::Value>) -> Set<Seq<char>>;

/// The string-valued entries of a parsed table: each key whose value is a
/// TOML string, mapped to that string.
pub uninterp spec fn table_strings(t: toml::map::Map<String, toml::Value>) -> Map<
    Seq<char>,
    Seq<char>,
>;

/// What the TOML text parses to — the string-valued entries and the key
/// set of the resulting table — or the parse failure described in words.
/// Either way a function of the text alone.
pub uninterp spec fn toml_of(s: Seq<char>) -> Result<
    (Map<Seq<char>, Seq<char>>, Set<Seq<char>>),
    Seq<char>,
>;

/// Relies on `toml::from_str`: parses TOML text into a table of values, or
/// reports in its own words why the text is not valid TOML.
#[verifier::external_body]
fn parse_toml(s: &str) -> (r: Result<toml::map::Map<String, toml::Value>, String>)
    ensures
        r is Ok <==> toml_of(s@) is Ok,
        r matches Ok(t) ==> (toml_of(s@) matches Ok(d) && d.0 == table_strings(t) && d.1
            == table_keys(t)),
        r matches Err(m) ==> (toml_of(s@) matches Err(c) && c == m@),
{
    toml::from_str(s).map_err(|e| e.message().to_owned())
}

/// Relies on `toml::map::Map::get` and `toml::Value::as_str`: the entry at
/// the key when it exists and is a string.
#[verifier::external_body]
fn table_get_string(t: &toml::map::Map<String, toml::Value>, key: &str) -> (r: Option<String>)
    ensures
        r is Some <==> table_strings(*t).contains_key(key@),
        r matches Some(s) ==> s@ == table_strings(*t)[key@],
{
    match t.get(key) {
        None => None,
        Some(v) => match v.as_str() {
            None => None,
            Some(s) => Some(s.to_owned()),
        },
    }
}

/// Relies on `toml::map::Map::contains_key`: whether the table has an entry
/// at the key, of whatever value type.
#[verifier::external_body]
fn table_has_key(t: &toml::map::Map<String, toml::Value>, key: &str) -> (r: bool)
    ensures
        r == table_keys(*t).contains(key@),
        table_strings(*t).contains_key(key@) ==> r,
{
    t.contains_key(key)
}

fn string_is(s: &String, lit: &str) -> (r: bool)
    ensures
        r == (s@ == lit@),
{
    let l = String::from_str(lit);
    *s == l
}

/// The primary message every frontmatter-configuration failure carries.
pub open spec fn config_error_message() -> Seq<char> {
    "failed to parse TOML frontmatter in manifest"@
}

fn config_error(cause: String) -> (r: Error)
    ensures
        r.kind == ErrorKind::ConfigurationInvalid,
        r.message@ == config_error_message(),
        r.causes.deep_view() == seq![cause@],
        r.raw is None,
{
    Error::of_kind(
        ErrorKind::ConfigurationInvalid,
        String::from_str("failed to parse TOML frontmatter in manifest"),
    ).with_source(cause).help(
        String::from_str("please check for syntax errors or invalid values in your manifest config"),
    )
}

/// The provider a frontmatter's string entries select.
pub open spec fn provider_of(strings: Map<Seq<char>, Seq<char>>) -> Option<Provider> {
    if strings.contains_key("provider"@) {
        let v = strings["provider"@];
        if v == "gemini"@ {
            Some(Provider::Gemini)
        } else if v == "grok"@ {
            Some(Provider::Grok)
        } else if v == "openai"@ {
            Some(Provider::OpenAI)
        } else {
            None
        }
    } else {
        None
    }
}

/// The provider the frontmatter table selects.
pub open spec fn spec_provider_of(t: toml::map::Map<String, toml::Value>) -> Option<Provider> {
    provider_of(table_strings(t))
}

/// The tone a frontmatter selects: the named preset, or the default when
/// the key is absent, or nothing when the value is not a known preset name.
pub open spec fn tone_of(strings: Map<Seq<char>, Seq<char>>, keys: Set<Seq<char>>) -> Option<
    TonePreset,
> {
    if strings.contains_key("tone_preset"@) {
        let v = strings["tone_preset"@];
        if v == "personal"@ {
            Some(TonePreset::Personal)
        } else if v == "conventional"@ {
            Some(TonePreset::Conventional)
        } else if v == "formal"@ {
            Some(TonePreset::Formal)
        } else {
            None
        }
    } else if !keys.contains("tone_preset"@) {
        Some(TonePreset::Conventional)
    } else {
        None
    }
}

/// The tone the frontmatter table selects.
pub open spec fn spec_tone_of(t: toml::map::Map<String, toml::Value>) -> Option<TonePreset> {
    tone_of(table_strings(t), table_keys(t))
}

/// An optional string entry: present and a string, absent, or ill-typed.
pub open spec fn opt_entry_of(
    strings: Map<Seq<char>, Seq<char>>,
    keys: Set<Seq<char>>,
    key: Seq<char>,
) -> Option<Option<Seq<char>>> {
    if strings.contains_key(key) {
        Some(Some(strings[key]))
    } else if !keys.contains(key) {
        Some(None)
    } else {
        None
    }
}

/// An optional string entry of the frontmatter table.
pub open spec fn spec_opt_entry(t: toml::map::Map<String, toml::Value>, key: Seq<char>) -> Option<
    Option<Seq<char>>,
> {
    opt_entry_of(table_strings(t), table_keys(t), key)
}

/// The frontmatter yields a configuration: a known provider, a known or
/// absent tone preset, and string-or-absent model and examples entries.
pub open spec fn config_ok(strings: Map<Seq<char>, Seq<char>>, keys: Set<Seq<char>>) -> bool {
    provider_of(strings) is Some && tone_of(strings, keys) is Some && opt_entry_of(
        strings,
        keys,
        "model"@,
    ) is Some && opt_entry_of(strings, keys, "examples"@) is Some
}

/// The configuration value the frontmatter yields.
pub open spec fn config_matches(
    c: Config,
    strings: Map<Seq<char>, Seq<char>>,
    keys: Set<Seq<char>>,
) -> bool {
    &&& Some(c.provider) == provider_of(strings)
    &&& Some(c.tone_preset) == tone_of(strings, keys)
    &&& match c.model {
        Some(m) => opt_entry_of(strings, keys, "model"@) == Some(Some(m@)),
        None => opt_entry_of(strings, keys, "model"@) == Some(None::<Seq<char>>),
    }
    &&& match c.examples {
        Some(e) => opt_entry_of(strings, keys, "examples"@) == Some(Some(e@)),
        None => opt_entry_of(strings, keys, "examples"@) == Some(None::<Seq<char>>),
    }
}

/// Maps a parsed frontmatter table onto the configuration: `provider` must
/// name a known provider; `model` and `examples` are optional strings;
/// `tone_preset` is an optional preset name defaulting to the conventional
/// tone. Anything else is a configuration error.
pub fn config_from_table(t: &toml::map::Map<String, toml::Value>) -> (r: Result<Config, Error>)
    ensures
        r is Ok <==> config_ok(table_strings(*t), table_keys(*t)),
        r matches Ok(c) ==> config_matches(c, table_strings(*t), table_keys(*t)),
        r matches Err(e) ==> e.kind == ErrorKind::ConfigurationInvalid && e.message@
            == config_error_message() && e.causes.deep_view().len() == 1 && e.raw is None,
{
    let provider = match table_get_string(t, "provider") {
        Some(p) => {
            if string_is(&p, "gemini") {
                Provider::Gemini
            } else if string_is(&p, "grok") {
                Provider::Grok
            } else if string_is(&p, "openai") {
                Provider::OpenAI
            } else {
                return Err(
                    config_error(
                        String::from_str("'provider' must be one of 'gemini', 'grok' or 'openai'"),
                    ),
                );
            }
        },
        None => {
            return Err(config_error(String::from_str("missing or invalid 'provider' value")));
        },
    };
    let model = match table_get_string(t, "model") {
        Some(m) => Some(m),
        None => {
            if table_has_key(t, "model") {
                return Err(config_error(String::from_str("'model' must be a string")));
            }
            None
        },
    };
    let examples = match table_get_string(t, "examples") {
        Some(e) => Some(e),
        None => {
            if table_has_key(t, "examples") {
                return Err(config_error(String::from_str("'examples' must be a string")));
            }
            None
        },
    };
    let tone_preset = match table_get_string(t, "tone_preset") {
        Some(p) => {
            if string_is(&p, "personal") {
                TonePreset::Personal
            } else if string_is(&p, "conventional") {
                TonePreset::Conventional
            } else if string_is(&p, "formal") {
                TonePreset::Formal
            } else {
                return Err(
                    config_error(
                        String::from_str(
                            "'tone_preset' must be one of 'personal', 'conventional' or 'formal'",
                        ),
                    ),
                );
            }
        },
        None => {
            if table_has_key(t, "tone_preset") {
                return Err(config_error(String::from_str("'tone_preset' must be a string")));
            }
            crate::config::default_tone_preset()
        },
    };
    Ok(Config { provider, model, examples, tone_preset })
}

/// The manifest text opens with the frontmatter delimiter.
pub open spec fn starts_with_delimiter(s: Seq<char>) -> bool {
    s.len() >= 3 && s.subrange(0, 3) == "---"@
}

/// Where the closing delimiter stands in the text after the opening one.
pub open spec fn closing_delimiter(s: Seq<char>) -> Option<int> {
    text::spec_find(s.skip(3), "---"@)
}

/// The frontmatter text, once both delimiters were found at `p`.
pub open spec fn frontmatter_part(s: Seq<char>, p: int) -> Seq<char> {
    s.skip(3).take(p)
}

/// The prompt text after the closing delimiter at `p`.
pub open spec fn prompt_part(s: Seq<char>, p: int) -> Seq<char> {
    s.skip(3).skip(p + 3)
}

/// The manifest parses successfully: both delimiters in place, neither
/// part blank, the frontmatter valid TOML, and its table yielding a
/// configuration.
pub open spec fn spec_parse_ok(s: Seq<char>) -> bool {
    &&& starts_with_delimiter(s)
    &&& closing_delimiter(s) matches Some(p) && !text::all_space(frontmatter_part(s, p))
        && !text::all_space(prompt_part(s, p)) && (toml_of(frontmatter_part(s, p)) matches Ok(d)
        && config_ok(d.0, d.1))
}

/// Parses the manifest: TOML frontmatter between two `---` delimiters, then
/// the prompt. Every failure is a configuration error carrying the exact
/// reason; on success the prompt text is returned verbatim.
pub fn parse(content: &str) -> (r: Result<Manifest, Error>)
    ensures
        !starts_with_delimiter(content@) ==> (r matches Err(e) && e.message@
            == "manifest must start with TOML frontmatter delimited by '---'"@),
        starts_with_delimiter(content@) && closing_delimiter(content@) is None ==> (r matches Err(
            e,
        ) && e.message@ == "manifest frontmatter is not closed with '---'"@),
        (starts_with_delimiter(content@) && (closing_delimiter(content@) matches Some(p)
            && text::all_space(frontmatter_part(content@, p)))) ==> (r matches Err(e) && e.message@
            == "TOML frontmatter cannot be empty"@),
        (starts_with_delimiter(content@) && (closing_delimiter(content@) matches Some(p)
            && !text::all_space(frontmatter_part(content@, p)) && text::all_space(
            prompt_part(content@, p),
        ))) ==> (r matches Err(e) && e.message@
            == "manifest is missing the prompt after the frontmatter"@),
        (starts_with_delimiter(content@) && (closing_delimiter(content@) matches Some(p)
            && !text::all_space(frontmatter_part(content@, p)) && !text::all_space(
            prompt_part(content@, p),
        ) && (toml_of(frontmatter_part(content@, p)) matches Err(c)))) ==> (r matches Err(e)
            && e.message@ == config_error_message() && (closing_delimiter(content@) matches Some(
            p,
        ) && (toml_of(frontmatter_part(content@, p)) matches Err(c) && e.causes.deep_view()
            == seq![c]))),
        (starts_with_delimiter(content@) && (closing_delimiter(content@) matches Some(p)
            && !text::all_space(frontmatter_part(content@, p)) && !text::all_space(
            prompt_part(content@, p),
        ) && (toml_of(frontmatter_part(content@, p)) matches Ok(d) && !config_ok(d.0, d.1))))
            ==> (r matches Err(e) && e.message@ == config_error_message()),
        r is Ok <==> spec_parse_ok(content@),
        r matches Err(e) ==> e.kind == ErrorKind::ConfigurationInvalid && e.raw is None,
        r matches Ok(m) ==> starts_with_delimiter(content@) && (closing_delimiter(content@) matches
            Some(p) && m.user_prompt@ == prompt_part(content@, p) && (toml_of(
            frontmatter_part(content@, p),
        ) matches Ok(d) && config_matches(m.config, d.0, d.1))),
{
    let chars = text::chars_of(content);
    proof {
        reveal_strlit("---");
    }
    if chars.len() < 3 || chars[0] != '-' || chars[1] != '-' || chars[2] != '-' {
        proof {
            if content@.len() >= 3 && content@.subrange(0, 3) == "---"@ {
                assert(content@.subrange(0, 3)[0] == '-' && content@.subrange(0, 3)[1] == '-'
                    && content@.subrange(0, 3)[2] == '-');
            }
        }
        return Err(
            Error::of_kind(
                ErrorKind::ConfigurationInvalid,
                String::from_str("manifest must start with TOML frontmatter delimited by '---'"),
            ),
        );
    }
    proof {
        assert(content@.subrange(0, 3) =~= "---"@);
    }
    let sep = text::chars_of("---");
    let n = chars.len();
    let mut rest: Vec<char> = Vec::new();
    let mut i: usize = 3;
    while i < n
        invariant
            3 <= i <= n,
            n == chars@.len(),
            rest@ == chars@.subrange(3, i as int),
        decreases n - i,
    {
        rest.push(chars[i]);
        proof {
            assert(rest@ =~= chars@.subrange(3, i + 1));
        }
        i = i + 1;
    }
    proof {
        assert(rest@ =~= chars@.skip(3));
        assert(sep@ == "---"@);
    }
    let p = match text::find(&rest, &sep) {
        None => {
            return Err(
                Error::of_kind(
                    ErrorKind::ConfigurationInvalid,
                    String::from_str("manifest frontmatter is not closed with '---'"),
                ),
            );
        },
        Some(p) => p,
    };
    proof {
        text::lemma_find_spec(rest@, sep@);
    }
    let mut fm: Vec<char> = Vec::new();
    let mut k: usize = 0;
    while k < p
        invariant
            k <= p,
            p + 3 <= rest@.len(),
            fm@ == rest@.subrange(0, k as int),
        decreases p - k,
    {
        fm.push(rest[k]);
        proof {
            assert(fm@ =~= rest@.subrange(0, k + 1));
        }
        k = k + 1;
    }
    let rn = rest.len();
    let mut pr: Vec<char> = Vec::new();
    let mut q: usize = p + 3;
    let ghost qstart = q as int;
    proof {
        assert(pr@ =~= rest@.subrange(qstart, qstart));
    }
    while q < rn
        invariant
            0 <= qstart <= q <= rn,
            rn == rest@.len(),
            pr@ == rest@.subrange(qstart, q as int),
        decreases rn - q,
    {
        pr.push(rest[q]);
        proof {
            assert(pr@ =~= rest@.subrange(qstart, q + 1));
        }
        q = q + 1;
    }
    proof {
        assert(fm@ =~= frontmatter_part(content@, p as int));
        assert(pr@ =~= prompt_part(content@, p as int));
    }
    let fm_trimmed = text::trim(&fm);
    proof {
        text::lemma_trim_all_space(fm@);
    }
    if fm_trimmed.len() == 0 {
        return Err(
            Error::of_kind(
                ErrorKind::ConfigurationInvalid,
                String::from_str("TOML frontmatter cannot be empty"),
            ).help(String::from_str("you must specify at least the 'provider'")),
        );
    }
    let pr_trimmed = text::trim(&pr);
    proof {
        text::lemma_trim_all_space(pr@);
    }
    if pr_trimmed.len() == 0 {
        return Err(
            Error::of_kind(
                ErrorKind::ConfigurationInvalid,
                String::from_str("manifest is missing the prompt after the frontmatter"),
            ),
        );
    }
    let fm_text = text::string_of(&fm);
    let table = match parse_toml(fm_text.as_str()) {
        Ok(t) => t,
        Err(cause) => {
            return Err(config_error(cause));
        },
    };
    let config = match config_from_table(&table) {
        Ok(c) => c,
        Err(e) => {
            return Err(e);
        },
    };
    Ok(Manifest { config, user_prompt: text::string_of(&pr) })
}

} // verus!
