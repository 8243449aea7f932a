//! Output options: the format chosen on the command line and the rendering
//! settings derived from it.

use vstd::prelude::*;

use crate::content::{join_lines, join_strings, line_separator, separator, strings_view};
use crate::order::str_eq;

verus! {

/// Rendering settings: cells on several lines, borders, CSV output.
#[derive(Debug, Clone, Copy, PartialEq, Eq, Structural)]
pub struct CommonOpts {
    pub multiline: bool,
    pub borders: bool,
    pub csv: bool,
}

/// Something that knows its rendering settings.
pub trait DisplayOpts {
    spec fn opts(&self) -> CommonOpts;

    fn common_opts(&self) -> (r: CommonOpts)
        ensures
            r == self.opts(),
    ;

    /// The lines joined as one cell renders them under these settings.
    fn joinstrs(&self, lines: &Vec<String>) -> (r: String)
        ensures
            r@ == join_lines(strings_view(lines@), line_separator(self.opts().multiline)),
    {
        join_strings(lines, separator(self.common_opts().multiline))
    }
}

impl DisplayOpts for CommonOpts {
    open spec fn opts(&self) -> CommonOpts {
        *self
    }

    fn common_opts(&self) -> (r: CommonOpts) {
        *self
    }
}

/// The output formats: a table with borders, one without, or CSV.
#[derive(Debug, Clone, Copy, PartialEq, Eq, Structural)]
pub enum OutputFormat {
    Table,
    TableClean,
    Csv,
}

impl OutputFormat {
    /// The format named `s`: "table", "table-clean" or "csv".
    pub fn parse(s: &str) -> (r: Option<OutputFormat>)
        ensures
            s@ == "table"@ ==> r == Some(OutputFormat::Table),
            s@ == "table-clean"@ ==> r == Some(OutputFormat::TableClean),
            s@ == "csv"@ ==> r == Some(OutputFormat::Csv),
            s@ != "table"@ && s@ != "table-clean"@ && s@ != "csv"@ ==> r is None,
    {
        proof {
            reveal_strlit("table");
            reveal_strlit("table-clean");
            reveal_strlit("csv");
            assert("table"@.len() != "table-clean"@.len());
            assert("table"@.len() != "csv"@.len());
        }
        if str_eq(s, "table") {
            Some(OutputFormat::Table)
        } else if str_eq(s, "table-clean") {
            Some(OutputFormat::TableClean)
        } else if str_eq(s, "csv") {
            Some(OutputFormat::Csv)
        } else {
            None
        }
    }
}

/// The reports on offer.
#[derive(Debug, Clone, Copy, PartialEq, Eq, Structural)]
pub enum Command {
    Vulns,
    Admins,
}

/// The command line, as values.
#[derive(Debug, Clone)]
pub struct Cli {
    pub oauth_token: String,
    pub org: String,
    pub output_format: OutputFormat,
    pub output_oneline: bool,
    pub cmd: Option<Command>,
}

/// The rendering settings that a format and the one-line switch call for.
pub open spec fn opts_for(format: OutputFormat, oneline: bool) -> CommonOpts {
    match format {
        OutputFormat::Table => CommonOpts { multiline: !oneline, borders: true, csv: false },
        OutputFormat::TableClean => CommonOpts { multiline: !oneline, borders: false, csv: false },
        OutputFormat::Csv => CommonOpts { multiline: !oneline, borders: false, csv: true },
    }
}

impl Cli {
    /// The report that was asked for; the vulnerabilities report by default.
    pub fn command(&self) -> (r: Command)
        ensures
            r == match self.cmd {
                Some(c) => c,
                None => Command::Vulns,
            },
    {
        match self.cmd {
            Some(c) => c,
            None => Command::Vulns,
        }
    }
}

impl DisplayOpts for Cli {
    open spec fn opts(&self) -> CommonOpts {
        opts_for(self.output_format, self.output_oneline)
    }

    /// The rendering settings of the chosen format.
    fn common_opts(&self) -> (r: CommonOpts) {
        match self.output_format {
            OutputFormat::Table => CommonOpts { multiline: !self.output_oneline, borders: true, csv: false },
            OutputFormat::TableClean => CommonOpts {
                multiline: !self.output_oneline,
                borders: false,
                csv: false,
            },
            OutputFormat::Csv => CommonOpts { multiline: !self.output_oneline, borders: false, csv: true },
        }
    }
}

} // verus!
