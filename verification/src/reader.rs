//! Configuration for reading delimited text into numeric columns.
//!
//! The `Reader` gathers the file name and the separators a data file uses.
//! Opening the file and turning its cells into numbers is input/output over
//! machine floats and lives with the caller; the configuration itself, with
//! its defaults, is specified here.

use vstd::prelude::*;

verus! {

/// Where a data file lives and how its cells are laid out.
pub struct Reader<'a> {
    file: &'a str,
    separator: &'a str,
    line: &'a str,
    decimal: &'a str,
    headers: usize,
    by_columns: bool,
}

impl<'a> Reader<'a> {
    /// The file name.
    pub closed spec fn spec_file(self) -> Seq<char> {
        self.file@
    }

    /// The text separating the columns of a row.
    pub closed spec fn spec_separator(self) -> Seq<char> {
        self.separator@
    }

    /// The text separating rows.
    pub closed spec fn spec_line(self) -> Seq<char> {
        self.line@
    }

    /// The decimal separator of the file's numbers.
    pub closed spec fn spec_decimal(self) -> Seq<char> {
        self.decimal@
    }

    /// How many leading rows are headers to skip.
    pub closed spec fn spec_headers(self) -> usize {
        self.headers
    }

    /// Whether the data is read by columns rather than by rows.
    pub closed spec fn spec_by_columns(self) -> bool {
        self.by_columns
    }

    /// A reader for the file given, skipping `headers` leading rows, with a
    /// tab between columns, a line feed between rows, a comma as the decimal
    /// separator, and column-wise reading.
    pub fn new(file: &'a str, headers: usize) -> (r: Reader<'a>)
        ensures
            r.spec_file() == file@,
            r.spec_separator() == "\t"@,
            r.spec_line() == "\n"@,
            r.spec_decimal() == ","@,
            r.spec_headers() == headers,
            r.spec_by_columns() == true,
    {
        Reader { file, separator: "\t", line: "\n", decimal: ",", headers, by_columns: true }
    }

    /// The same reader with another column separator.
    pub fn separator(self, separator: &'a str) -> (r: Reader<'a>)
        ensures
            r.spec_separator() == separator@,
            r.spec_file() == self.spec_file(),
            r.spec_line() == self.spec_line(),
            r.spec_decimal() == self.spec_decimal(),
            r.spec_headers() == self.spec_headers(),
            r.spec_by_columns() == self.spec_by_columns(),
    {
        Reader { separator, ..self }
    }

    /// The same reader with another row separator.
    pub fn line(self, line: &'a str) -> (r: Reader<'a>)
        ensures
            r.spec_line() == line@,
            r.spec_file() == self.spec_file(),
            r.spec_separator() == self.spec_separator(),
            r.spec_decimal() == self.spec_decimal(),
            r.spec_headers() == self.spec_headers(),
            r.spec_by_columns() == self.spec_by_columns(),
    {
        Reader { line, ..self }
    }

    /// The same reader with another decimal separator.
    pub fn decimal(self, decimal: &'a str) -> (r: Reader<'a>)
        ensures
            r.spec_decimal() == decimal@,
            r.spec_file() == self.spec_file(),
            r.spec_separator() == self.spec_separator(),
            r.spec_line() == self.spec_line(),
            r.spec_headers() == self.spec_headers(),
            r.spec_by_columns() == self.spec_by_columns(),
    {
        Reader { decimal, ..self }
    }

    /// The same reader, read by columns when `by_columns` holds and by rows
    /// otherwise.
    pub fn by_columns(self, by_columns: bool) -> (r: Reader<'a>)
        ensures
            r.spec_by_columns() == by_columns,
            r.spec_file() == self.spec_file(),
            r.spec_separator() == self.spec_separator(),
            r.spec_line() == self.spec_line(),
            r.spec_decimal() == self.spec_decimal(),
            r.spec_headers() == self.spec_headers(),
    {
        Reader { by_columns, ..self }
    }

    /// The configuration, laid out as the caller's reading code takes it:
    /// file, separator, line, decimal, headers, by_columns.
    pub fn parts(&self) -> (r: (&'a str, &'a str, &'a str, &'a str, usize, bool))
        ensures
            r.0@ == self.spec_file(),
            r.1@ == self.spec_separator(),
            r.2@ == self.spec_line(),
            r.3@ == self.spec_decimal(),
            r.4 == self.spec_headers(),
            r.5 == self.spec_by_columns(),
    {
        (self.file, self.separator, self.line, self.decimal, self.headers, self.by_columns)
    }
}

} // verus!
