//! The editor's display settings.
use crate::util::iter_equals;
use vstd::prelude::*;
use vstd::string::StringSliceAdditionalSpecFns;

verus! {

/// How the editor lays out the buffer.
#[derive(Clone, Copy, Debug, PartialEq, Eq, Structural)]
pub struct Config {
    /// Show the bytes as characters beside the hex view.
    pub show_ascii: bool,
    /// Show the offset of each line.
    pub show_linenum: bool,
    /// Bytes per line; `None` fits as many as the screen allows.
    pub line_width: Option<u32>,
    /// Bytes per group in the hex view.
    pub group_bytes: u8,
    /// Show each group's bytes in reverse order.
    pub little_endian: bool,
}

impl Default for Config {
    fn default() -> (r: Config)
        ensures
            r.show_ascii,
            r.show_linenum,
            r.line_width.is_none(),
            r.group_bytes == 1,
            !r.little_endian,
    {
        Config {
            show_ascii: true,
            show_linenum: true,
            line_width: None,
            group_bytes: 1,
            little_endian: false,
        }
    }
}

/// A setting's name and its current value.
#[derive(Clone, Copy, Debug)]
pub enum Value {
    Flag(&'static str, bool),
    Width(&'static str, Option<u32>),
    Group(&'static str, u8),
}

impl Config {
    /// The settings in the order a settings screen lists them.
    pub fn values(&self) -> (r: Vec<Value>)
        ensures
            r@ == seq![
                Value::Flag("show_ascii", self.show_ascii),
                Value::Flag("show_linenum", self.show_linenum),
                Value::Width("line_width", self.line_width),
                Value::Group("group_bytes", self.group_bytes),
                Value::Flag("little_endian", self.little_endian),
            ],
    {
        let mut r: Vec<Value> = Vec::new();
        r.push(Value::Flag("show_ascii", self.show_ascii));
        r.push(Value::Flag("show_linenum", self.show_linenum));
        r.push(Value::Width("line_width", self.line_width));
        r.push(Value::Group("group_bytes", self.group_bytes));
        r.push(Value::Flag("little_endian", self.little_endian));
        proof {
            assert(r@ =~= seq![
                Value::Flag("show_ascii", self.show_ascii),
                Value::Flag("show_linenum", self.show_linenum),
                Value::Width("line_width", self.line_width),
                Value::Group("group_bytes", self.group_bytes),
                Value::Flag("little_endian", self.little_endian),
            ]);
        }
        r
    }
}

/// A setting's new value, as read from a settings line.
#[derive(Clone, Copy, Debug, PartialEq, Eq)]
pub enum ConfigValue {
    Boolean(bool),
    Integer(i64),
    /// Any other kind of value, such as a string or a table.
    Other,
}

/// Why a setting was refused.
#[derive(Clone, Copy, Debug, PartialEq, Eq)]
pub enum ConfigError {
    /// No setting has this name.
    InvalidFieldName,
    /// The setting takes another kind of value: the kind it takes.
    InvalidFieldType(&'static str),
    /// The value is out of the setting's range.
    InvalidFieldValue(&'static str),
}

/// `key` is the name `name`.
pub open spec fn names(key: &str, name: &str) -> bool {
    key@ == name@
}

/// Whether `key` is `name`.
fn key_is(key: &str, name: &str) -> (r: bool)
    ensures
        r == names(key, name),
{
    let r = iter_equals(key.as_bytes(), name.as_bytes());
    proof {
        vstd::utf8::encode_utf8_decode_utf8(key@);
        vstd::utf8::encode_utf8_decode_utf8(name@);
    }
    r
}

impl Config {
    /// Set the setting `key` to `val`: a flag takes a boolean; `line_width` takes a count,
    /// 0 meaning as many as fit; `group_bytes` takes a count from 0 to 64. A refused
    /// setting leaves the configuration as it was.
    pub fn set_from_key_value(&mut self, key: &str, val: ConfigValue) -> (r: Result<(), ConfigError>)
        ensures
            r.is_err() ==> *final(self) == *old(self),
            names(key, "show_ascii") ==> match val {
                ConfigValue::Boolean(b) => r == Ok::<(), ConfigError>(()) && *final(self) == (
                Config { show_ascii: b, ..*old(self) }),
                _ => r == Err::<(), ConfigError>(ConfigError::InvalidFieldType("Boolean")),
            },
            names(key, "show_linenum") ==> match val {
                ConfigValue::Boolean(b) => r == Ok::<(), ConfigError>(()) && *final(self) == (
                Config { show_linenum: b, ..*old(self) }),
                _ => r == Err::<(), ConfigError>(ConfigError::InvalidFieldType("Boolean")),
            },
            names(key, "little_endian") ==> match val {
                ConfigValue::Boolean(b) => r == Ok::<(), ConfigError>(()) && *final(self) == (
                Config { little_endian: b, ..*old(self) }),
                _ => r == Err::<(), ConfigError>(ConfigError::InvalidFieldType("Boolean")),
            },
            names(key, "line_width") ==> match val {
                ConfigValue::Integer(i) => if i == 0 {
                    r == Ok::<(), ConfigError>(()) && *final(self) == (Config {
                        line_width: None,
                        ..*old(self)
                    })
                } else if 0 < i <= u32::MAX {
                    r == Ok::<(), ConfigError>(()) && *final(self) == (Config {
                        line_width: Some(i as u32),
                        ..*old(self)
                    })
                } else {
                    r is Err
                },
                _ => r == Err::<(), ConfigError>(ConfigError::InvalidFieldType("Integer")),
            },
            names(key, "group_bytes") ==> match val {
                ConfigValue::Integer(i) => if 0 <= i <= 64 {
                    r == Ok::<(), ConfigError>(()) && *final(self) == (Config {
                        group_bytes: i as u8,
                        ..*old(self)
                    })
                } else {
                    r is Err
                },
                _ => r == Err::<(), ConfigError>(ConfigError::InvalidFieldType("Integer")),
            },
            !names(key, "show_ascii") && !names(key, "show_linenum") && !names(key, "little_endian")
                && !names(key, "line_width") && !names(key, "group_bytes") ==> r == Err::<
                (),
                ConfigError,
            >(ConfigError::InvalidFieldName),
    {
        proof {
            reveal_strlit("show_ascii");
            reveal_strlit("show_linenum");
            reveal_strlit("little_endian");
            reveal_strlit("line_width");
            reveal_strlit("group_bytes");
            assert("show_ascii"@.len() == 10 && "show_linenum"@.len() == 12);
            assert("little_endian"@.len() == 13 && "line_width"@.len() == 10);
            assert("group_bytes"@.len() == 11);
            assert("show_ascii"@[0] != "line_width"@[0]);
            assert("line_width"@ != "group_bytes"@);
        }
        if key_is(key, "show_ascii") || key_is(key, "show_linenum") || key_is(key, "little_endian") {
            let b = match val {
                ConfigValue::Boolean(b) => b,
                _ => {
                    return Err(ConfigError::InvalidFieldType("Boolean"));
                },
            };
            if key_is(key, "show_ascii") {
                self.show_ascii = b;
            } else if key_is(key, "show_linenum") {
                self.show_linenum = b;
            } else {
                self.little_endian = b;
            }
            Ok(())
        } else if key_is(key, "line_width") {
            match val {
                ConfigValue::Integer(i) => {
                    if i == 0 {
                        self.line_width = None;
                        Ok(())
                    } else if i < 0 {
                        Err(ConfigError::InvalidFieldValue("line_width must be >= 0"))
                    } else if i > u32::MAX as i64 {
                        Err(ConfigError::InvalidFieldValue("line_width is too large"))
                    } else {
                        self.line_width = Some(i as u32);
                        Ok(())
                    }
                },
                _ => Err(ConfigError::InvalidFieldType("Integer")),
            }
        } else if key_is(key, "group_bytes") {
            match val {
                ConfigValue::Integer(i) => {
                    if 0 <= i && i <= 64 {
                        self.group_bytes = i as u8;
                        Ok(())
                    } else {
                        Err(ConfigError::InvalidFieldValue("group_bytes must be between 0 and 64"))
                    }
                },
                _ => Err(ConfigError::InvalidFieldType("Integer")),
            }
        } else {
            Err(ConfigError::InvalidFieldName)
        }
    }
}

} // verus!
