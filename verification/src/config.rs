//! What the command line asks for.
//!
//! In order to call `xlcat`, you need to provide a path to a valid workbook
//! and a tab that can be found in that workbook (either by name or by
//! number). You can (optionally) also pass the number of rows you want to see
//! with the `-n` flag (e.g., `-n 10` limits the output to the first ten
//! rows), and the format of the output with the `--fmt` flag.

use vstd::prelude::*;
use vstd::string::StringExecFns;
use crate::text::{parse_unsigned, parse_unsigned_spec, str_eq};

verus! {

#[derive(Debug, Clone, Copy, PartialEq, Eq, Structural)]
pub enum OutputFormat {
    Csv,
    Markdown,
}

/// Which tab should we print: the one of that name, or the one at that
/// place.
#[derive(Debug)]
pub enum Tab {
    Name(String),
    Num(usize),
}

/// What a `Tab` holds, with a name as its characters.
pub enum TabModel {
    Name(Seq<char>),
    Num(usize),
}

impl View for Tab {
    type V = TabModel;

    open spec fn view(&self) -> TabModel {
        match self {
            Tab::Name(n) => TabModel::Name(n@),
            Tab::Num(n) => TabModel::Num(*n),
        }
    }
}

#[derive(Debug)]
pub struct Config {
    /// Which xlsx file should we print?
    workbook_path: String,
    /// Which tab should we print?
    tab: Tab,
    /// How many rows should we print?
    nrows: Option<u32>,
    /// Should we show usage information?
    want_help: bool,
    /// Should we show the current version?
    want_version: bool,
    /// What output format should we use?
    pub output_format: OutputFormat,
}

/// What a `Config` holds, with text as its characters.
pub struct ConfigModel {
    pub workbook_path: Seq<char>,
    pub tab: TabModel,
    pub nrows: Option<u32>,
    pub want_help: bool,
    pub want_version: bool,
    pub output_format: OutputFormat,
}

impl View for Config {
    type V = ConfigModel;

    closed spec fn view(&self) -> ConfigModel {
        ConfigModel {
            workbook_path: self.workbook_path@,
            tab: self.tab@,
            nrows: self.nrows,
            want_help: self.want_help,
            want_version: self.want_version,
            output_format: self.output_format,
        }
    }
}

#[derive(Debug)]
pub enum ConfigError<'a> {
    NeedPathAndTab(&'a str),
    NeedTab,
    RowsMustBeInt,
    NeedNumRows,
    UnknownFlag(&'a str),
    InvalidFormat(&'a str),
    NeedFormat,
}

/// What a `ConfigError` holds, with text as its characters.
pub enum ConfigErrorModel {
    NeedPathAndTab(Seq<char>),
    NeedTab,
    RowsMustBeInt,
    NeedNumRows,
    UnknownFlag(Seq<char>),
    InvalidFormat(Seq<char>),
    NeedFormat,
}

impl<'a> View for ConfigError<'a> {
    type V = ConfigErrorModel;

    open spec fn view(&self) -> ConfigErrorModel {
        match self {
            ConfigError::NeedPathAndTab(exe) => ConfigErrorModel::NeedPathAndTab(exe@),
            ConfigError::NeedTab => ConfigErrorModel::NeedTab,
            ConfigError::RowsMustBeInt => ConfigErrorModel::RowsMustBeInt,
            ConfigError::NeedNumRows => ConfigErrorModel::NeedNumRows,
            ConfigError::UnknownFlag(flag) => ConfigErrorModel::UnknownFlag(flag@),
            ConfigError::InvalidFormat(format) => ConfigErrorModel::InvalidFormat(format@),
            ConfigError::NeedFormat => ConfigErrorModel::NeedFormat,
        }
    }
}

impl ConfigErrorModel {
    /// The words in which the error is told.
    pub open spec fn message(self) -> Seq<char> {
        match self {
            ConfigErrorModel::NeedPathAndTab(exe) => "need to provide path and tab when running '"@
                + exe + "'. See usage below."@,
            ConfigErrorModel::NeedTab => "must also provide which tab you want to view in workbook"@,
            ConfigErrorModel::RowsMustBeInt => "number of rows must be an integer value"@,
            ConfigErrorModel::NeedNumRows => "must provide number of rows when using -n"@,
            ConfigErrorModel::UnknownFlag(flag) => "unknown flag: "@ + flag,
            ConfigErrorModel::InvalidFormat(format) => "invalid format '"@ + format
                + "'. Valid formats are 'csv' and 'markdown'"@,
            ConfigErrorModel::NeedFormat => "must provide format when using --fmt"@,
        }
    }
}

impl<'a> ConfigError<'a> {
    /// The words in which the error is told.
    pub fn to_string(&self) -> (r: String)
        ensures
            r@ == self@.message(),
    {
        match self {
            ConfigError::NeedPathAndTab(exe) => {
                let r = "need to provide path and tab when running '".to_owned();
                let r = r.concat(exe);
                r.concat("'. See usage below.")
            },
            ConfigError::NeedTab => {
                "must also provide which tab you want to view in workbook".to_owned()
            },
            ConfigError::RowsMustBeInt => "number of rows must be an integer value".to_owned(),
            ConfigError::NeedNumRows => "must provide number of rows when using -n".to_owned(),
            ConfigError::UnknownFlag(flag) => "unknown flag: ".to_owned().concat(flag),
            ConfigError::InvalidFormat(format) => {
                let r = "invalid format '".to_owned();
                let r = r.concat(format);
                r.concat("'. Valid formats are 'csv' and 'markdown'")
            },
            ConfigError::NeedFormat => "must provide format when using --fmt".to_owned(),
        }
    }
}

/// The arguments `args` as their characters.
pub open spec fn arg_texts(args: Seq<String>) -> Seq<Seq<char>> {
    Seq::new(args.len(), |i: int| args[i]@)
}

/// The tab that the argument `arg` asks for: the one at that place where
/// `arg` is a number, else the one of that name.
pub open spec fn tab_spec(arg: Seq<char>) -> TabModel {
    match parse_unsigned_spec(arg, usize::MAX as int) {
        Some(n) => TabModel::Num(n as usize),
        None => TabModel::Name(arg),
    }
}

/// The configuration without a workbook, for a call that only asks for help
/// or for the version.
pub open spec fn bare_config(want_help: bool, want_version: bool) -> ConfigModel {
    ConfigModel {
        workbook_path: Seq::empty(),
        tab: TabModel::Num(0),
        nrows: None,
        want_help,
        want_version,
        output_format: OutputFormat::Csv,
    }
}

/// `config` after the flags `flags`, read from the left: `-n` takes the
/// number of rows after it, `--fmt` the format after it, and nothing else is
/// a flag. The first flag that cannot be read ends the reading.
pub open spec fn flags_spec(config: ConfigModel, flags: Seq<Seq<char>>) -> Result<
    ConfigModel,
    ConfigErrorModel,
>
    decreases flags.len(),
{
    if flags.len() == 0 {
        Ok(config)
    } else if flags[0] == "-n"@ {
        if flags.len() < 2 {
            Err(ConfigErrorModel::NeedNumRows)
        } else {
            match parse_unsigned_spec(flags[1], u32::MAX as int) {
                Some(n) => flags_spec(
                    ConfigModel { nrows: Some(n as u32), ..config },
                    flags.subrange(2, flags.len() as int),
                ),
                None => Err(ConfigErrorModel::RowsMustBeInt),
            }
        }
    } else if flags[0] == "--fmt"@ {
        if flags.len() < 2 {
            Err(ConfigErrorModel::NeedFormat)
        } else if flags[1] == "csv"@ {
            flags_spec(
                ConfigModel { output_format: OutputFormat::Csv, ..config },
                flags.subrange(2, flags.len() as int),
            )
        } else if flags[1] == "markdown"@ {
            flags_spec(
                ConfigModel { output_format: OutputFormat::Markdown, ..config },
                flags.subrange(2, flags.len() as int),
            )
        } else {
            Err(ConfigErrorModel::InvalidFormat(flags[1]))
        }
    } else {
        Err(ConfigErrorModel::UnknownFlag(flags[0]))
    }
}

/// What the arguments `args` of a call ask for. The first is the name
/// under which the program was called; then come the path of the workbook
/// and the tab, and after them the flags. A call with one argument more
/// than that name can only ask for help or for the version.
pub open spec fn config_spec(args: Seq<Seq<char>>) -> Result<ConfigModel, ConfigErrorModel> {
    if args.len() < 2 {
        Err(ConfigErrorModel::NeedPathAndTab(args[0]))
    } else if args.len() < 3 {
        if args[1] == "-h"@ || args[1] == "--help"@ {
            Ok(bare_config(true, false))
        } else if args[1] == "-v"@ || args[1] == "--version"@ {
            Ok(bare_config(false, true))
        } else {
            Err(ConfigErrorModel::NeedTab)
        }
    } else {
        flags_spec(
            ConfigModel {
                workbook_path: args[1],
                tab: tab_spec(args[2]),
                nrows: None,
                want_help: false,
                want_version: false,
                output_format: OutputFormat::Csv,
            },
            args.subrange(3, args.len() as int),
        )
    }
}

impl Config {
    /// Reads the arguments of a call, of which the first is the name under
    /// which the program was called.
    pub fn new(args: &[String]) -> (r: Result<Config, ConfigError<'_>>)
        requires
            args@.len() >= 1,
        ensures
            match r {
                Ok(config) => config_spec(arg_texts(args@)) == Ok::<ConfigModel, ConfigErrorModel>(
                    config@,
                ),
                Err(e) => config_spec(arg_texts(args@)) == Err::<ConfigModel, ConfigErrorModel>(e@),
            },
    {
        let ghost texts = arg_texts(args@);
        if args.len() < 2 {
            return Err(ConfigError::NeedPathAndTab(args[0].as_str()));
        } else if args.len() < 3 {
            let flag = args[1].as_str();
            return if str_eq(flag, "-h") || str_eq(flag, "--help") {
                Ok(
                    Config {
                        workbook_path: String::new(),
                        tab: Tab::Num(0),
                        nrows: None,
                        want_version: false,
                        want_help: true,
                        output_format: OutputFormat::Csv,
                    },
                )
            } else if str_eq(flag, "-v") || str_eq(flag, "--version") {
                Ok(
                    Config {
                        workbook_path: String::new(),
                        tab: Tab::Num(0),
                        nrows: None,
                        want_version: true,
                        want_help: false,
                        output_format: OutputFormat::Csv,
                    },
                )
            } else {
                Err(ConfigError::NeedTab)
            };
        }
        let workbook_path = args[1].clone();
        let tab = match parse_unsigned(args[2].as_str(), usize::MAX as u64) {
            Some(num) => Tab::Num(num as usize),
            None => Tab::Name(args[2].clone()),
        };
        let mut config = Config {
            workbook_path,
            tab,
            nrows: None,
            want_help: false,
            want_version: false,
            output_format: OutputFormat::Csv,
        };
        let mut i: usize = 3;
        assert(texts.subrange(3, texts.len() as int) =~= texts.subrange(i as int, texts.len() as int));
        while i < args.len()
            invariant
                3 <= i <= args.len(),
                texts == arg_texts(args@),
                config_spec(texts) == flags_spec(config@, texts.subrange(i as int, texts.len() as int)),
            decreases args.len() - i,
        {
            let ghost rest = texts.subrange(i as int, texts.len() as int);
            assert(rest[0] == args@[i as int]@);
            let flag = args[i].as_str();
            if str_eq(flag, "-n") {
                if i + 1 < args.len() {
                    assert(rest[1] == args@[i + 1]@);
                    match parse_unsigned(args[i + 1].as_str(), u32::MAX as u64) {
                        Some(nrows) => {
                            config.nrows = Some(nrows as u32);
                        },
                        None => {
                            return Err(ConfigError::RowsMustBeInt);
                        },
                    }
                } else {
                    return Err(ConfigError::NeedNumRows);
                }
            } else if str_eq(flag, "--fmt") {
                if i + 1 < args.len() {
                    assert(rest[1] == args@[i + 1]@);
                    let format = args[i + 1].as_str();
                    if str_eq(format, "csv") {
                        config.output_format = OutputFormat::Csv;
                    } else if str_eq(format, "markdown") {
                        config.output_format = OutputFormat::Markdown;
                    } else {
                        return Err(ConfigError::InvalidFormat(format));
                    }
                } else {
                    return Err(ConfigError::NeedFormat);
                }
            } else {
                return Err(ConfigError::UnknownFlag(flag));
            }
            assert(rest.subrange(2, rest.len() as int) =~= texts.subrange(i + 2, texts.len() as int));
            i += 2;
        }
        Ok(config)
    }

    /// Which xlsx file should we print?
    pub fn workbook_path(&self) -> (r: &str)
        ensures
            r@ == self@.workbook_path,
    {
        self.workbook_path.as_str()
    }

    /// Which tab should we print?
    pub fn tab(&self) -> (r: &Tab)
        ensures
            r@ == self@.tab,
    {
        &self.tab
    }

    /// How many rows should we print?
    pub fn nrows(&self) -> (r: Option<u32>)
        ensures
            r == self@.nrows,
    {
        self.nrows
    }

    /// Should we show usage information?
    pub fn want_help(&self) -> (r: bool)
        ensures
            r == self@.want_help,
    {
        self.want_help
    }

    /// Should we show the current version?
    pub fn want_version(&self) -> (r: bool)
        ensures
            r == self@.want_version,
    {
        self.want_version
    }

    /// What output format should we use?
    pub fn output_format(&self) -> (r: OutputFormat)
        ensures
            r == self@.output_format,
    {
        self.output_format
    }
}

} // verus!
