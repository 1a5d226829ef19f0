//! Settings read from the environment, with their defaults and bounds.
use vstd::prelude::*;
use vstd::string::*;

use crate::text::{chars_of, lemma_parse_reads_decimal, opt_text, text_result, decimal, parse_unsigned, parse_unsigned_chars, push_decimal, string_of, trim, trimmed};

verus! {

pub const DEFAULT_MODEL: &'static str = "openai/gpt-oss-20b";

pub const DEFAULT_MAX_TURNS: usize = 10;

pub const MAX_ALLOWED_TURNS: usize = 100;

pub const DEFAULT_BASH_TIMEOUT_SECS: u64 = 30;

pub const MAX_BASH_TIMEOUT_SECS: u64 = 60 * 60;

/// What the environment holds for one variable.
pub enum EnvValue {
    Present(String),
    NotPresent,
    NotUnicode,
}

/// The active configuration of the agent.
pub struct Config {
    pub api_key: String,
    pub model: String,
    pub max_turns: usize,
    pub bash_timeout_secs: u64,
}

pub struct ConfigView {
    pub api_key: Seq<char>,
    pub model: Seq<char>,
    pub max_turns: nat,
    pub bash_timeout_secs: nat,
}

impl View for Config {
    type V = ConfigView;

    open spec fn view(&self) -> ConfigView {
        ConfigView {
            api_key: self.api_key@,
            model: self.model@,
            max_turns: self.max_turns as nat,
            bash_timeout_secs: self.bash_timeout_secs as nat,
        }
    }
}

/// The value of one variable as the configuration reads it.
pub open spec fn optional_env_spec(name: Seq<char>, value: EnvValue) -> Result<
    Option<Seq<char>>,
    Seq<char>,
> {
    match value {
        EnvValue::Present(s) => Ok(Some(s@)),
        EnvValue::NotPresent => Ok(None),
        EnvValue::NotUnicode => Err(name + " contains invalid Unicode"@),
    }
}

/// A required text setting: present, and not blank once trimmed.
pub open spec fn non_empty_spec(name: Seq<char>, value: Option<Seq<char>>) -> Result<
    Seq<char>,
    Seq<char>,
> {
    match value {
        None => Err(name + " is not set"@),
        Some(v) => if trimmed(v).len() == 0 {
            Err(name + " cannot be empty"@)
        } else {
            Ok(trimmed(v))
        },
    }
}

/// A numeric setting: `default` when absent; otherwise a whole number of the
/// integer type whose largest value is `type_max`, between 1 and `maximum`.
pub open spec fn bounded_spec(
    name: Seq<char>,
    value: Option<Seq<char>>,
    default: nat,
    maximum: nat,
    type_max: nat,
) -> Result<nat, Seq<char>> {
    match value {
        None => Ok(default),
        Some(v) => match parse_unsigned(trimmed(v), type_max) {
            None => Err(name + " must be a whole number"@),
            Some(n) => if n < 1 || n > maximum {
                Err(name + " must be between 1 and "@ + decimal(maximum))
            } else {
                Ok(n)
            },
        },
    }
}

/// The configuration that the four optional settings give, or the first
/// error among them, in the order API key, model, turns, timeout.
pub open spec fn config_spec(
    api_key: Option<Seq<char>>,
    model: Option<Seq<char>>,
    max_turns: Option<Seq<char>>,
    bash_timeout_secs: Option<Seq<char>>,
) -> Result<ConfigView, Seq<char>> {
    let key = non_empty_spec("GROQ_API_KEY"@, api_key);
    let chosen_model = match model {
        Some(m) => non_empty_spec("GROQ_MODEL"@, Some(m)),
        None => Ok(DEFAULT_MODEL@),
    };
    let turns = bounded_spec(
        "AGENT_MAX_TURNS"@,
        max_turns,
        DEFAULT_MAX_TURNS as nat,
        MAX_ALLOWED_TURNS as nat,
        usize::MAX as nat,
    );
    let timeout = bounded_spec(
        "AGENT_BASH_TIMEOUT_SECS"@,
        bash_timeout_secs,
        DEFAULT_BASH_TIMEOUT_SECS as nat,
        MAX_BASH_TIMEOUT_SECS as nat,
        u64::MAX as nat,
    );
    if key is Err {
        Err(key->Err_0)
    } else if chosen_model is Err {
        Err(chosen_model->Err_0)
    } else if turns is Err {
        Err(turns->Err_0)
    } else if timeout is Err {
        Err(timeout->Err_0)
    } else {
        Ok(
            ConfigView {
                api_key: key->Ok_0,
                model: chosen_model->Ok_0,
                max_turns: turns->Ok_0,
                bash_timeout_secs: timeout->Ok_0,
            },
        )
    }
}

/// The configuration result as the specification reads it.
pub open spec fn config_result(r: Result<Config, String>) -> Result<ConfigView, Seq<char>> {
    match r {
        Ok(c) => Ok(c@),
        Err(e) => Err(e@),
    }
}

/// The text that `/config` prints.
pub open spec fn summary_spec(c: ConfigView) -> Seq<char> {
    "Active configuration:\n  Model: "@ + c.model + "\n  Maximum agent turns: "@ + decimal(
        c.max_turns,
    ) + "\n  Bash timeout: "@ + decimal(c.bash_timeout_secs) + " seconds"@
}

/// Reads one variable's state, refusing text that is not Unicode.
pub fn optional_env(name: &str, value: EnvValue) -> (r: Result<Option<String>, String>)
    ensures
        match r {
            Ok(o) => optional_env_spec(name@, value) == Ok::<Option<Seq<char>>, Seq<char>>(
                opt_text(o),
            ),
            Err(e) => optional_env_spec(name@, value) == Err::<Option<Seq<char>>, Seq<char>>(
                e@,
            ),
        },
{
    match value {
        EnvValue::Present(s) => Ok(Some(s)),
        EnvValue::NotPresent => Ok(None),
        EnvValue::NotUnicode => {
            let mut e = String::from_str(name);
            e.append(" contains invalid Unicode");
            Err(e)
        },
    }
}

/// A required setting, trimmed; refused when missing or blank.
pub fn non_empty_value(name: &str, value: Option<String>) -> (r: Result<String, String>)
    ensures
        text_result(r) == non_empty_spec(name@, opt_text(value)),
{
    match value {
        None => {
            let mut e = String::from_str(name);
            e.append(" is not set");
            Err(e)
        },
        Some(v) => {
            let chars = chars_of(v.as_str());
            let t = trim(&chars);
            if t.len() == 0 {
                let mut e = String::from_str(name);
                e.append(" cannot be empty");
                Err(e)
            } else {
                Ok(string_of(&t))
            }
        },
    }
}

/// A numeric setting: `default` when absent, else a whole number between 1
/// and `maximum`, read as an integer type whose largest value is `type_max`.
pub fn bounded_number(
    name: &str,
    value: Option<&str>,
    default: u64,
    maximum: u64,
    type_max: u64,
) -> (r: Result<u64, String>)
    ensures
        match r {
            Ok(n) => bounded_spec(
                name@,
                match value {
                    Some(v) => Some(v@),
                    None => None,
                },
                default as nat,
                maximum as nat,
                type_max as nat,
            ) == Ok::<nat, Seq<char>>(n as nat),
            Err(e) => bounded_spec(
                name@,
                match value {
                    Some(v) => Some(v@),
                    None => None,
                },
                default as nat,
                maximum as nat,
                type_max as nat,
            ) == Err::<nat, Seq<char>>(e@),
        },
{
    let v = match value {
        None => {
            return Ok(default);
        },
        Some(v) => v,
    };
    let chars = chars_of(v);
    let t = trim(&chars);
    match parse_unsigned_chars(&t, type_max) {
        None => {
            let mut e = String::from_str(name);
            e.append(" must be a whole number");
            Err(e)
        },
        Some(n) => {
            if n < 1 || n > maximum {
                let mut e = String::from_str(name);
                e.append(" must be between 1 and ");
                push_decimal(&mut e, maximum);
                Err(e)
            } else {
                Ok(n)
            }
        },
    }
}

impl Config {
    /// The configuration from the four variables' states in the environment.
    pub fn from_env(
        api_key: EnvValue,
        model: EnvValue,
        max_turns: EnvValue,
        bash_timeout_secs: EnvValue,
    ) -> (r: Result<Config, String>)
        ensures
            config_result(r) == ({
                let a = optional_env_spec("GROQ_API_KEY"@, api_key);
                let m = optional_env_spec("GROQ_MODEL"@, model);
                let t = optional_env_spec("AGENT_MAX_TURNS"@, max_turns);
                let b = optional_env_spec("AGENT_BASH_TIMEOUT_SECS"@, bash_timeout_secs);
                if a is Err {
                    Err(a->Err_0)
                } else if m is Err {
                    Err(m->Err_0)
                } else if t is Err {
                    Err(t->Err_0)
                } else if b is Err {
                    Err(b->Err_0)
                } else {
                    config_spec(a->Ok_0, m->Ok_0, t->Ok_0, b->Ok_0)
                }
            }),
    {
        let a = match optional_env("GROQ_API_KEY", api_key) {
            Ok(a) => a,
            Err(e) => {
                return Err(e);
            },
        };
        let m = match optional_env("GROQ_MODEL", model) {
            Ok(m) => m,
            Err(e) => {
                return Err(e);
            },
        };
        let t = match optional_env("AGENT_MAX_TURNS", max_turns) {
            Ok(t) => t,
            Err(e) => {
                return Err(e);
            },
        };
        let b = match optional_env("AGENT_BASH_TIMEOUT_SECS", bash_timeout_secs) {
            Ok(b) => b,
            Err(e) => {
                return Err(e);
            },
        };
        Self::from_values(a, m, t, b)
    }

    /// The configuration from the optional settings, or the first error.
    pub fn from_values(
        api_key: Option<String>,
        model: Option<String>,
        max_turns: Option<String>,
        bash_timeout_secs: Option<String>,
    ) -> (r: Result<Config, String>)
        ensures
            config_result(r) == config_spec(
                opt_text(api_key),
                opt_text(model),
                opt_text(max_turns),
                opt_text(bash_timeout_secs),
            ),
    {
        let ghost spec = config_spec(
            opt_text(api_key),
            opt_text(model),
            opt_text(max_turns),
            opt_text(bash_timeout_secs),
        );
        let api_key = match non_empty_value("GROQ_API_KEY", api_key) {
            Ok(k) => k,
            Err(e) => {
                return Err(e);
            },
        };
        let model = match model {
            Some(m) => match non_empty_value("GROQ_MODEL", Some(m)) {
                Ok(m) => m,
                Err(e) => {
                    return Err(e);
                },
            },
            None => String::from_str(DEFAULT_MODEL),
        };
        let turns_text: Option<&str> = match &max_turns {
            Some(s) => Some(s.as_str()),
            None => None,
        };
        let max_turns = match bounded_number(
            "AGENT_MAX_TURNS",
            turns_text,
            DEFAULT_MAX_TURNS as u64,
            MAX_ALLOWED_TURNS as u64,
            usize::MAX as u64,
        ) {
            Ok(n) => n as usize,
            Err(e) => {
                return Err(e);
            },
        };
        let timeout_text: Option<&str> = match &bash_timeout_secs {
            Some(s) => Some(s.as_str()),
            None => None,
        };
        let bash_timeout_secs = match bounded_number(
            "AGENT_BASH_TIMEOUT_SECS",
            timeout_text,
            DEFAULT_BASH_TIMEOUT_SECS,
            MAX_BASH_TIMEOUT_SECS,
            u64::MAX,
        ) {
            Ok(n) => n,
            Err(e) => {
                return Err(e);
            },
        };
        Ok(Config { api_key, model, max_turns, bash_timeout_secs })
    }

    /// The active settings, without the API key.
    pub fn summary(&self) -> (s: String)
        ensures
            s@ == summary_spec(self@),
    {
        let mut s = String::from_str("Active configuration:\n  Model: ");
        s.append(self.model.as_str());
        s.append("\n  Maximum agent turns: ");
        push_decimal(&mut s, self.max_turns as u64);
        s.append("\n  Bash timeout: ");
        push_decimal(&mut s, self.bash_timeout_secs);
        s.append(" seconds");
        s
    }
}

/// The summary shows no part of a configuration but its model, turn limit
/// and timeout: two configurations that differ only in their API key have
/// the same summary.
pub proof fn lemma_summary_independent_of_api_key(a: ConfigView, b: ConfigView)
    requires
        a.model == b.model,
        a.max_turns == b.max_turns,
        a.bash_timeout_secs == b.bash_timeout_secs,
    ensures
        summary_spec(a) == summary_spec(b),
{
}

/// Every accepted configuration has a non-blank key and model, and numbers
/// within their bounds.
pub proof fn lemma_accepted_settings_are_in_bounds(
    api_key: Option<Seq<char>>,
    model: Option<Seq<char>>,
    max_turns: Option<Seq<char>>,
    bash_timeout_secs: Option<Seq<char>>,
)
    ensures
        config_spec(api_key, model, max_turns, bash_timeout_secs) matches Ok(c) ==> {
            &&& c.api_key.len() > 0
            &&& c.model.len() > 0
            &&& 1 <= c.max_turns <= MAX_ALLOWED_TURNS
            &&& 1 <= c.bash_timeout_secs <= MAX_BASH_TIMEOUT_SECS
        },
{
    reveal_strlit("openai/gpt-oss-20b");
}

/// Whether the text of a numeric setting is the decimal form of a number
/// between 1 and `maximum`, once trimmed.
pub open spec fn names_number_up_to(v: Seq<char>, maximum: nat) -> bool {
    exists|n: nat| 1 <= n <= maximum && trimmed(v) == decimal(n)
}

/// An accepted configuration holds the settings as given, trimmed, and the
/// default of each one that is absent; a number is the value its text reads
/// as. A key that is not blank, with every other setting absent or a
/// non-blank model and numbers written in decimal within their bounds, is
/// always accepted; a missing key is always refused first.
pub proof fn lemma_settings_are_taken_as_given(
    api_key: Option<Seq<char>>,
    model: Option<Seq<char>>,
    max_turns: Option<Seq<char>>,
    bash_timeout_secs: Option<Seq<char>>,
)
    ensures
        config_spec(api_key, model, max_turns, bash_timeout_secs) matches Ok(c) ==> {
            &&& api_key is Some
            &&& c.api_key == trimmed(api_key->Some_0)
            &&& model is None ==> c.model == DEFAULT_MODEL@
            &&& model is Some ==> c.model == trimmed(model->Some_0)
            &&& max_turns is None ==> c.max_turns == DEFAULT_MAX_TURNS
            &&& max_turns is Some ==> parse_unsigned(trimmed(max_turns->Some_0), usize::MAX as nat)
                == Some(c.max_turns)
            &&& bash_timeout_secs is None ==> c.bash_timeout_secs == DEFAULT_BASH_TIMEOUT_SECS
            &&& bash_timeout_secs is Some ==> parse_unsigned(
                trimmed(bash_timeout_secs->Some_0),
                u64::MAX as nat,
            ) == Some(c.bash_timeout_secs)
        },
        (api_key is Some && trimmed(api_key->Some_0).len() > 0 && (model is None || trimmed(
            model->Some_0,
        ).len() > 0) && (max_turns is None || names_number_up_to(
            max_turns->Some_0,
            MAX_ALLOWED_TURNS as nat,
        )) && (bash_timeout_secs is None || names_number_up_to(
            bash_timeout_secs->Some_0,
            MAX_BASH_TIMEOUT_SECS as nat,
        ))) ==> config_spec(api_key, model, max_turns, bash_timeout_secs) is Ok,
        api_key is None ==> config_spec(api_key, model, max_turns, bash_timeout_secs) == Err::<
            ConfigView,
            Seq<char>,
        >("GROQ_API_KEY is not set"@),
{
    reveal_strlit("GROQ_API_KEY is not set");
    reveal_strlit("GROQ_API_KEY");
    reveal_strlit(" is not set");
    assert("GROQ_API_KEY"@ + " is not set"@ =~= "GROQ_API_KEY is not set"@);
    if max_turns is Some && names_number_up_to(max_turns->Some_0, MAX_ALLOWED_TURNS as nat) {
        let n = choose|n: nat|
            1 <= n <= MAX_ALLOWED_TURNS && trimmed(max_turns->Some_0) == decimal(n);
        lemma_parse_reads_decimal(n, usize::MAX as nat);
    }
    if bash_timeout_secs is Some && names_number_up_to(
        bash_timeout_secs->Some_0,
        MAX_BASH_TIMEOUT_SECS as nat,
    ) {
        let n = choose|n: nat|
            1 <= n <= MAX_BASH_TIMEOUT_SECS && trimmed(bash_timeout_secs->Some_0) == decimal(n);
        lemma_parse_reads_decimal(n, u64::MAX as nat);
    }
}

} // verus!
