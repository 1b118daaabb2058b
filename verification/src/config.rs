//! The settings of the runtime, and how a TOML document amends them.
//!
//! The document is laid over the settings key by key: each setting that the
//! document names with a value of the right kind takes that value, and
//! every other setting stays what it was.

use vstd::prelude::*;
use vstd::utf8::encode_utf8;

verus! {

/// A TOML value of the `toml` crate. Its inside is not visible here: what a
/// value holds is named by [`table_entry`], [`integer_of`] and
/// [`boolean_of`].
#[verifier::external_type_specification]
#[verifier::external_body]
pub struct ExTomlValue(toml::Value);

/// The value under `key`, if the value is a table that has this key: what
/// `toml::Value::get` returns for a string index.
pub uninterp spec fn table_entry(value: toml::Value, key: Seq<char>) -> Option<toml::Value>;

/// The integer that the value is, if it is one: what
/// `toml::Value::as_integer` returns.
pub uninterp spec fn integer_of(value: toml::Value) -> Option<i64>;

/// The boolean that the value is, if it is one: what `toml::Value::as_bool`
/// returns.
pub uninterp spec fn boolean_of(value: toml::Value) -> Option<bool>;

/// The value that a text is read as, if the text is a TOML document: what
/// `toml::from_str` returns for `toml::Value`, without the error.
pub uninterp spec fn parsed(text: Seq<char>) -> Option<toml::Value>;

/// `toml::Value::as_integer`: `Some` with the integer for an integer value,
/// `None` for every other value.
pub assume_specification[ toml::Value::as_integer ](value: &toml::Value) -> (r: Option<i64>)
    ensures
        r == integer_of(*value),
;

/// `toml::Value::as_bool`: `Some` with the boolean for a boolean value,
/// `None` for every other value.
pub assume_specification[ toml::Value::as_bool ](value: &toml::Value) -> (r: Option<bool>)
    ensures
        r == boolean_of(*value),
;

/// `toml::Value::get` with a string index: the value under `key` if `value`
/// is a table that has the key, `None` if it is no table or has no such key.
#[verifier::external_body]
fn entry<'a>(value: &'a toml::Value, key: &str) -> (r: Option<&'a toml::Value>)
    ensures
        match r {
            Some(e) => table_entry(*value, key@) == Some(*e),
            None => table_entry(*value, key@) is None,
        },
{
    value.get(key)
}

/// How deep a text may nest before it is taken for no document.
pub const NESTING_LIMIT: usize = 256;

/// Whether a byte opens a level of nesting in a TOML text: a `[`, a `{`, or
/// the dot of a dotted key.
pub open spec fn opens_level(b: u8) -> bool {
    b == 0x5b || b == 0x7b || b == 0x2e
}

/// How many bytes of a text open a level of nesting. No value of the text
/// nests deeper than this. Every such byte counts, also one in a string,
/// in a comment or in a number, and also one whose level was closed again:
/// the count errs on the side of the deeper document.
pub open spec fn nesting_marks(bytes: Seq<u8>) -> nat
    decreases bytes.len(),
{
    if bytes.len() == 0 {
        0
    } else {
        nesting_marks(bytes.drop_last()) + if opens_level(bytes.last()) {
            1nat
        } else {
            0nat
        }
    }
}

/// Whether a text nests no deeper than the limit.
pub open spec fn shallow(text: Seq<char>) -> bool {
    nesting_marks(encode_utf8(text)) <= NESTING_LIMIT
}

/// Says whether a text nests no deeper than the limit.
pub fn is_shallow(text: &str) -> (r: bool)
    ensures
        r == shallow(text@),
{
    let bytes = text.as_bytes();
    let mut marks: usize = 0;
    let mut i: usize = 0;
    while i < bytes.len()
        invariant
            i <= bytes.len(),
            bytes@ == encode_utf8(text@),
            marks == nesting_marks(bytes@.take(i as int)),
            marks <= i,
        decreases bytes.len() - i,
    {
        proof {
            assert(bytes@.take(i + 1).drop_last() =~= bytes@.take(i as int));
        }
        let b = bytes[i];
        if b == 0x5b || b == 0x7b || b == 0x2e {
            marks = marks + 1;
        }
        i += 1;
    }
    proof {
        assert(bytes@.take(i as int) =~= bytes@);
    }
    marks <= NESTING_LIMIT
}

/// `toml::from_str` for `toml::Value`: the document as a value, or `None`
/// where the crate reports an error. The same text gives the same value.
/// The parser calls itself once for each level of nesting, so a text has to
/// be shallow.
#[verifier::external_body]
fn parse(text: &str) -> (r: Option<toml::Value>)
    requires
        shallow(text@),
    ensures
        r == parsed(text@),
{
    toml::from_str::<toml::Value>(text).ok()
}

/// The integer under `key` of a section, if the section has the key and an
/// integer under it.
pub open spec fn integer_at(section: toml::Value, key: Seq<char>) -> Option<i64> {
    match table_entry(section, key) {
        Some(e) => integer_of(e),
        None => None,
    }
}

fn integer_in(section: &toml::Value, key: &str) -> (r: Option<i64>)
    ensures
        r == integer_at(*section, key@),
{
    match entry(section, key) {
        Some(e) => e.as_integer(),
        None => None,
    }
}

/// The settings of the mailboxes.
#[derive(Clone, Copy, Debug, PartialEq, Eq, Structural)]
pub struct MailboxConfig {
    /// How many user messages one run-task delivers at most.
    pub msg_process_limit: u32,
}

impl Default for MailboxConfig {
    fn default() -> (r: Self)
        ensures
            r.msg_process_limit == 1000,
    {
        MailboxConfig { msg_process_limit: 1000 }
    }
}

impl MailboxConfig {
    /// The settings with the quota set from an integer of the document. The
    /// integer is cut to its lowest 32 bits.
    pub open spec fn with_limit(self, n: i64) -> Self {
        MailboxConfig { msg_process_limit: n as u32 }
    }

    /// The settings as the section `section` amends them: the quota is the
    /// integer under `msg_process_limit`, if there is one.
    pub open spec fn merged(self, section: toml::Value) -> Self {
        match table_entry(section, "msg_process_limit"@) {
            Some(e) => match integer_of(e) {
                Some(n) => self.with_limit(n),
                None => self,
            },
            None => self,
        }
    }

    /// Sets the quota from an integer of the document.
    pub fn set_limit(&mut self, n: i64)
        ensures
            *final(self) == old(self).with_limit(n),
    {
        self.msg_process_limit = #[verifier::truncate]
        (n as u32);
    }

    /// Amends the settings from their section of the document. The result
    /// is always `None`.
    pub fn merge(&mut self, section: &toml::Value) -> (r: Option<()>)
        ensures
            r is None,
            *final(self) == old(self).merged(*section),
    {
        let n = entry(section, "msg_process_limit")?.as_integer()?;
        self.set_limit(n);
        None
    }
}

/// The settings of the executor's worker pool.
#[derive(Clone, Copy, Debug, PartialEq, Eq, Structural)]
pub struct ThreadPoolConfig {
    pub pool_size: usize,
    /// The stack size of a worker; 0 stands for the platform's default.
    pub stack_size: usize,
}

impl ThreadPoolConfig {
    pub fn new(pool_size: usize, stack_size: usize) -> (r: Self)
        ensures
            r == (ThreadPoolConfig { pool_size, stack_size }),
    {
        ThreadPoolConfig { pool_size, stack_size }
    }

    /// The settings as the section `section` amends them: the pool size is
    /// the integer under `pool_size` and the stack size the integer under
    /// `stack_size`, each if there is one, and each cut to the width of
    /// `usize`.
    pub open spec fn merged(self, section: toml::Value) -> Self {
        ThreadPoolConfig {
            pool_size: match integer_at(section, "pool_size"@) {
                Some(n) => n as usize,
                None => self.pool_size,
            },
            stack_size: match integer_at(section, "stack_size"@) {
                Some(n) => n as usize,
                None => self.stack_size,
            },
        }
    }

    /// Amends the settings from their section of the document. The result
    /// is always `None`.
    pub fn merge(&mut self, section: &toml::Value) -> (r: Option<()>)
        ensures
            r is None,
            *final(self) == old(self).merged(*section),
    {
        match integer_in(section, "pool_size") {
            Some(n) => {
                self.pool_size = #[verifier::truncate]
                (n as usize);
            },
            None => {},
        }
        match integer_in(section, "stack_size") {
            Some(n) => {
                self.stack_size = #[verifier::truncate]
                (n as usize);
            },
            None => {},
        }
        None
    }
}

/// The settings of the timer.
#[derive(Clone, Copy, Debug, PartialEq, Eq, Structural)]
pub struct BasicTimerConfig {
    /// How often the timer looks for due jobs, in milliseconds.
    pub frequency_millis: u64,
}

impl Default for BasicTimerConfig {
    fn default() -> (r: Self)
        ensures
            r.frequency_millis == 50,
    {
        BasicTimerConfig { frequency_millis: 50 }
    }
}

impl BasicTimerConfig {
    /// The settings as the section `section` amends them: the frequency is
    /// the integer under `frequency_ms`, if there is one.
    pub open spec fn merged(self, section: toml::Value) -> Self {
        match table_entry(section, "frequency_ms"@) {
            Some(e) => match integer_of(e) {
                Some(n) => BasicTimerConfig { frequency_millis: n as u64 },
                None => self,
            },
            None => self,
        }
    }

    /// Amends the settings from their section of the document. The result
    /// is always `None`.
    pub fn merge(&mut self, section: &toml::Value) -> (r: Option<()>)
        ensures
            r is None,
            *final(self) == old(self).merged(*section),
    {
        let n = entry(section, "frequency_ms")?.as_integer()?;
        self.frequency_millis = #[verifier::truncate]
        (n as u64);
        None
    }
}

/// All settings of the runtime.
#[derive(Clone, Copy, Debug, PartialEq, Eq, Structural)]
pub struct Config {
    pub debug: bool,
    pub mailbox: MailboxConfig,
    pub dispatcher: ThreadPoolConfig,
    pub scheduler: BasicTimerConfig,
}

impl Config {
    /// The default settings around the given settings of the worker pool:
    /// debugging on, a quota of 1000 messages, a timer frequency of 50 ms.
    pub open spec fn defaults(thread_pool_config: ThreadPoolConfig) -> Self {
        Config {
            debug: true,
            mailbox: MailboxConfig { msg_process_limit: 1000 },
            dispatcher: thread_pool_config,
            scheduler: BasicTimerConfig { frequency_millis: 50 },
        }
    }

    /// The default settings around the given settings of the worker pool.
    pub fn new(thread_pool_config: ThreadPoolConfig) -> (r: Self)
        ensures
            r == Config::defaults(thread_pool_config),
    {
        Config {
            debug: true,
            mailbox: MailboxConfig::default(),
            dispatcher: thread_pool_config,
            scheduler: BasicTimerConfig::default(),
        }
    }

    /// The settings as the document `doc` amends them, each key on its own:
    /// `debug` is the boolean under `debug` if there is one, and the
    /// settings of the mailbox, the dispatcher and the scheduler are amended
    /// by the sections `mailbox`, `dispatcher` and `scheduler` where the
    /// document has them. What the document does not name stays.
    pub open spec fn merged(self, doc: toml::Value) -> Self {
        Config {
            debug: match table_entry(doc, "debug"@) {
                Some(e) => match boolean_of(e) {
                    Some(b) => b,
                    None => self.debug,
                },
                None => self.debug,
            },
            mailbox: match table_entry(doc, "mailbox"@) {
                Some(m) => self.mailbox.merged(m),
                None => self.mailbox,
            },
            dispatcher: match table_entry(doc, "dispatcher"@) {
                Some(d) => self.dispatcher.merged(d),
                None => self.dispatcher,
            },
            scheduler: match table_entry(doc, "scheduler"@) {
                Some(t) => self.scheduler.merged(t),
                None => self.scheduler,
            },
        }
    }

    /// Amends the settings from a document. The result is always `None`.
    pub fn merge(&mut self, doc: &toml::Value) -> (r: Option<()>)
        ensures
            r is None,
            *final(self) == old(self).merged(*doc),
    {
        match entry(doc, "debug") {
            Some(e) => match e.as_bool() {
                Some(b) => {
                    self.debug = b;
                },
                None => {},
            },
            None => {},
        }
        match entry(doc, "mailbox") {
            Some(m) => {
                self.mailbox.merge(m);
            },
            None => {},
        }
        match entry(doc, "dispatcher") {
            Some(d) => {
                self.dispatcher.merge(d);
            },
            None => {},
        }
        match entry(doc, "scheduler") {
            Some(t) => {
                self.scheduler.merge(t);
            },
            None => {},
        }
        None
    }

    /// The settings as the text of a configuration file amends them. A text
    /// that is no TOML document changes nothing, and a text that nests
    /// deeper than the limit is taken for no document.
    pub open spec fn amended(self, text: Seq<char>) -> Self {
        if shallow(text) {
            match parsed(text) {
                Some(doc) => self.merged(doc),
                None => self,
            }
        } else {
            self
        }
    }

    /// Amends the settings from the text of a configuration file.
    pub fn amend(&mut self, text: &str)
        ensures
            *final(self) == old(self).amended(text@),
    {
        if is_shallow(text) {
            match parse(text) {
                Some(doc) => {
                    self.merge(&doc);
                },
                None => {},
            }
        }
    }
}

/// The settings for a system: the defaults around `thread_pool_config`,
/// amended by the text of the configuration file if the host found one.
pub fn load_config(thread_pool_config: ThreadPoolConfig, file: Option<&str>) -> (r: Config)
    ensures
        r == match file {
            Some(text) => Config::defaults(thread_pool_config).amended(text@),
            None => Config::defaults(thread_pool_config),
        },
{
    let mut cfg = Config::new(thread_pool_config);
    match file {
        Some(text) => cfg.amend(text),
        None => {},
    }
    cfg
}

} // verus!
