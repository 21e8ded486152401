//! The command-line tool's settings: where its nodes are, which chain and
//! wallet it uses, and how it shows results.
use vstd::prelude::*;
use crate::keymap::str_eq;
use crate::text::chars_of;

verus! {

/// How results are shown.
#[derive(Clone, Copy, Debug, PartialEq, Eq, Structural)]
pub enum OutputFormat {
    Pretty,
    Json,
    Table,
}

/// The settings.
#[derive(Clone, Debug)]
pub struct CliConfig {
    pub rpc_url: String,
    pub rest_url: String,
    pub default_wallet: Option<String>,
    pub chain_id: String,
    pub output_format: OutputFormat,
    pub wallet_dir: String,
}

/// Why a setting was refused.
#[derive(Clone, Debug, PartialEq, Eq)]
pub enum ConfigError {
    /// No setting has this name.
    UnknownKey(String),
    /// This is not the name of an output format.
    InvalidFormat(String),
}

/// `c` in lower case, where it is an ASCII capital.
pub open spec fn ascii_lower_char(c: char) -> char {
    if 65 <= (c as u32) <= 90 {
        ((c as u32) + 32) as char
    } else {
        c
    }
}

/// `t` with its ASCII capitals in lower case.
pub open spec fn ascii_lower(t: Seq<char>) -> Seq<char> {
    t.map_values(|c: char| ascii_lower_char(c))
}

/// The output format a name stands for, in any mix of cases.
pub open spec fn format_named(t: Seq<char>) -> Option<OutputFormat> {
    if ascii_lower(t) == "pretty"@ {
        Some(OutputFormat::Pretty)
    } else if ascii_lower(t) == "json"@ {
        Some(OutputFormat::Json)
    } else if ascii_lower(t) == "table"@ {
        Some(OutputFormat::Table)
    } else {
        None
    }
}

/// The name of a format.
pub open spec fn format_name(f: OutputFormat) -> Seq<char> {
    match f {
        OutputFormat::Pretty => "pretty"@,
        OutputFormat::Json => "json"@,
        OutputFormat::Table => "table"@,
    }
}

pub open spec fn is_rpc_url_key(k: Seq<char>) -> bool {
    k == "rpc-url"@ || k == "rpc_url"@
}

pub open spec fn is_rest_url_key(k: Seq<char>) -> bool {
    k == "rest-url"@ || k == "rest_url"@
}

pub open spec fn is_chain_id_key(k: Seq<char>) -> bool {
    k == "chain-id"@ || k == "chain_id"@
}

pub open spec fn is_format_key(k: Seq<char>) -> bool {
    k == "format"@ || k == "output-format"@ || k == "output_format"@
}

pub open spec fn is_default_wallet_key(k: Seq<char>) -> bool {
    k == "default-wallet"@ || k == "default_wallet"@
}

pub open spec fn is_wallet_dir_key(k: Seq<char>) -> bool {
    k == "wallet-dir"@ || k == "wallet_dir"@
}

/// Whether `k` names a setting.
pub open spec fn is_known_key(k: Seq<char>) -> bool {
    is_rpc_url_key(k) || is_rest_url_key(k) || is_chain_id_key(k) || is_format_key(k)
        || is_default_wallet_key(k) || is_wallet_dir_key(k)
}

/// Whether `cs`, with ASCII capitals in lower case, is `word`.
fn same_ignoring_ascii_case(cs: &Vec<char>, word: &str) -> (r: bool)
    ensures
        r == (ascii_lower(cs@) == word@),
{
    let w = chars_of(word);
    if cs.len() != w.len() {
        proof {
            assert(ascii_lower(cs@).len() == cs@.len());
        }
        return false;
    }
    let mut i: usize = 0;
    while i < cs.len()
        invariant
            i <= cs@.len() == w@.len(),
            w@ == word@,
            forall|k: int| 0 <= k < i ==> ascii_lower_char(#[trigger] cs@[k]) == w@[k],
        decreases cs@.len() - i,
    {
        let c = cs[i];
        let lower = if (c as u32) >= 65 && (c as u32) <= 90 {
            ((c as u32 + 32) as u8) as char
        } else {
            c
        };
        proof {
            if 65 <= (c as u32) <= 90 {
                let b = ((c as u32) + 32) as u8;
                assert((b as char) as u32 == b as u32);
                assert((((c as u32) + 32) as char) as u32 == (c as u32) + 32);
            }
        }
        if lower != w[i] {
            assert(ascii_lower(cs@)[i as int] != word@[i as int]);
            return false;
        }
        i += 1;
    }
    assert(ascii_lower(cs@) =~= word@);
    true
}

impl OutputFormat {
    /// The format named `s`, in any mix of cases.
    pub fn parse_name(s: &str) -> (r: Result<OutputFormat, ConfigError>)
        ensures
            match r {
                Ok(f) => format_named(s@) == Some(f),
                Err(ConfigError::InvalidFormat(v)) => format_named(s@) is None && v@ == s@,
                Err(_) => false,
            },
    {
        let cs = chars_of(s);
        if same_ignoring_ascii_case(&cs, "pretty") {
            Ok(OutputFormat::Pretty)
        } else if same_ignoring_ascii_case(&cs, "json") {
            Ok(OutputFormat::Json)
        } else if same_ignoring_ascii_case(&cs, "table") {
            Ok(OutputFormat::Table)
        } else {
            Err(ConfigError::InvalidFormat(s.to_owned()))
        }
    }

    /// The format's name in lower case.
    pub fn to_string(&self) -> (r: String)
        ensures
            r@ == format_name(*self),
    {
        match self {
            OutputFormat::Pretty => String::from_str("pretty"),
            OutputFormat::Json => String::from_str("json"),
            OutputFormat::Table => String::from_str("table"),
        }
    }
}

impl std::str::FromStr for OutputFormat {
    type Err = ConfigError;

    fn from_str(s: &str) -> (r: Result<OutputFormat, ConfigError>)
        ensures
            match r {
                Ok(f) => format_named(s@) == Some(f),
                Err(ConfigError::InvalidFormat(v)) => format_named(s@) is None && v@ == s@,
                Err(_) => false,
            },
    {
        OutputFormat::parse_name(s)
    }
}

impl ConfigError {
    /// The error as a sentence.
    pub fn message(&self) -> (r: String)
        ensures
            match self {
                ConfigError::UnknownKey(k) => r@ == "unknown config key '"@ + k@
                    + "'. Valid keys: rpc-url, rest-url, chain-id, format, default-wallet, wallet-dir"@,
                ConfigError::InvalidFormat(v) => r@ == "invalid output format '"@ + v@
                    + "', expected: pretty, json, table"@,
            },
    {
        match self {
            ConfigError::UnknownKey(k) => {
                let mut m = String::from_str("unknown config key '");
                m.append(k.as_str());
                m.append("'. Valid keys: rpc-url, rest-url, chain-id, format, default-wallet, wallet-dir");
                m
            },
            ConfigError::InvalidFormat(v) => {
                let mut m = String::from_str("invalid output format '");
                m.append(v.as_str());
                m.append("', expected: pretty, json, table");
                m
            },
        }
    }
}

/// No name belongs to two settings.
proof fn lemma_setting_names_differ(k: Seq<char>)
    ensures
        is_rest_url_key(k) ==> !is_rpc_url_key(k),
        is_chain_id_key(k) ==> !is_rpc_url_key(k) && !is_rest_url_key(k),
        is_format_key(k) ==> !is_rpc_url_key(k) && !is_rest_url_key(k) && !is_chain_id_key(k),
        is_default_wallet_key(k) ==> !is_rpc_url_key(k) && !is_rest_url_key(k) && !is_chain_id_key(k)
            && !is_format_key(k),
        is_wallet_dir_key(k) ==> !is_rpc_url_key(k) && !is_rest_url_key(k) && !is_chain_id_key(k)
            && !is_format_key(k) && !is_default_wallet_key(k),
{
    reveal_strlit("rpc-url");
    assert("rpc-url"@.len() == 7);
    reveal_strlit("rpc_url");
    assert("rpc_url"@.len() == 7);
    reveal_strlit("rest-url");
    assert("rest-url"@.len() == 8);
    reveal_strlit("rest_url");
    assert("rest_url"@.len() == 8);
    reveal_strlit("chain-id");
    assert("chain-id"@.len() == 8);
    reveal_strlit("chain_id");
    assert("chain_id"@.len() == 8);
    reveal_strlit("format");
    assert("format"@.len() == 6);
    reveal_strlit("output-format");
    assert("output-format"@.len() == 13);
    reveal_strlit("output_format");
    assert("output_format"@.len() == 13);
    reveal_strlit("default-wallet");
    assert("default-wallet"@.len() == 14);
    reveal_strlit("default_wallet");
    assert("default_wallet"@.len() == 14);
    reveal_strlit("wallet-dir");
    assert("wallet-dir"@.len() == 10);
    reveal_strlit("wallet_dir");
    assert("wallet_dir"@.len() == 10);
    assert("rest-url"@[0] != "chain-id"@[0]);
    assert("rest_url"@[0] != "chain_id"@[0]);
    assert("rest-url"@[0] != "chain_id"@[0]);
    assert("rest_url"@[0] != "chain-id"@[0]);
}

impl CliConfig {
    /// Sets the setting named `key` to `value`. A format must be one of the
    /// format names; a default wallet of `none` or nothing clears it.
    pub fn set_value(&mut self, key: &str, value: &str) -> (r: Result<(), ConfigError>)
        ensures
            is_rpc_url_key(key@) ==> r is Ok && final(self).rpc_url@ == value@ && *final(self) == (
            CliConfig { rpc_url: final(self).rpc_url, ..*old(self) }),
            is_rest_url_key(key@) ==> r is Ok && final(self).rest_url@ == value@ && *final(self) == (
            CliConfig { rest_url: final(self).rest_url, ..*old(self) }),
            is_chain_id_key(key@) ==> r is Ok && final(self).chain_id@ == value@ && *final(self) == (
            CliConfig { chain_id: final(self).chain_id, ..*old(self) }),
            is_wallet_dir_key(key@) ==> r is Ok && final(self).wallet_dir@ == value@ && *final(self) == (
            CliConfig { wallet_dir: final(self).wallet_dir, ..*old(self) }),
            is_format_key(key@) ==> match format_named(value@) {
                Some(f) => r is Ok && *final(self) == (CliConfig { output_format: f, ..*old(self) }),
                None => *final(self) == *old(self) && (r matches Err(ConfigError::InvalidFormat(v))
                    && v@ == value@),
            },
            is_default_wallet_key(key@) ==> r is Ok && *final(self) == (CliConfig {
                default_wallet: final(self).default_wallet,
                ..*old(self)
            }) && if value@ == "none"@ || value@.len() == 0 {
                final(self).default_wallet is None
            } else {
                final(self).default_wallet matches Some(w) && w@ == value@
            },
            !is_known_key(key@) ==> *final(self) == *old(self) && (r matches Err(
                ConfigError::UnknownKey(k),
            ) && k@ == key@),
    {
        proof {
            lemma_setting_names_differ(key@);
        }
        if str_eq(key, "rpc-url") || str_eq(key, "rpc_url") {
            self.rpc_url = value.to_owned();
        } else if str_eq(key, "rest-url") || str_eq(key, "rest_url") {
            self.rest_url = value.to_owned();
        } else if str_eq(key, "chain-id") || str_eq(key, "chain_id") {
            self.chain_id = value.to_owned();
        } else if str_eq(key, "format") || str_eq(key, "output-format") || str_eq(key, "output_format") {
            match OutputFormat::parse_name(value) {
                Ok(f) => {
                    self.output_format = f;
                },
                Err(e) => {
                    return Err(e);
                },
            }
        } else if str_eq(key, "default-wallet") || str_eq(key, "default_wallet") {
            if str_eq(value, "none") || value.is_empty() {
                self.default_wallet = None;
            } else {
                self.default_wallet = Some(value.to_owned());
            }
        } else if str_eq(key, "wallet-dir") || str_eq(key, "wallet_dir") {
            self.wallet_dir = value.to_owned();
        } else {
            return Err(ConfigError::UnknownKey(key.to_owned()));
        }
        Ok(())
    }

    /// The format to show results in: JSON where the flag asks for it,
    /// otherwise the configured one.
    pub fn effective_format(&self, json_flag: bool) -> (r: OutputFormat)
        ensures
            r == (if json_flag {
                OutputFormat::Json
            } else {
                self.output_format
            }),
    {
        if json_flag {
            OutputFormat::Json
        } else {
            self.output_format
        }
    }
}

} // verus!
