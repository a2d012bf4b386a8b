use vstd::prelude::*;
use vstd::string::*;
use core::marker::PhantomData;
use crate::text::{is_whitespace_char, push_char, spec_is_whitespace};

verus! {

/// Names a delimiter-separated file to be written.
#[derive(Clone, Debug)]
pub struct DsvWriter {
    /// The file name the encoded lines are meant for.
    pub file_name: String,
}

impl DsvWriter {
    /// An encoder for the named file.
    pub fn new(name: String) -> (r: DsvWriter)
        ensures
            r.file_name@ == name@,
    {
        DsvWriter { file_name: name }
    }
}

/// The three characters a delimiter-separated format is built from.
pub trait DsvFormat {
    /// The quote character, for specifications.
    spec fn spec_quote() -> char;

    /// The delimiter character, for specifications.
    spec fn spec_delimiter() -> char;

    /// The escape character, for specifications.
    spec fn spec_escape() -> char;

    /// The quote character.
    fn quote() -> (c: char)
        ensures
            c == Self::spec_quote(),
    ;

    /// The delimiter character.
    fn delimiter() -> (c: char)
        ensures
            c == Self::spec_delimiter(),
    ;

    /// The escape character.
    fn escape() -> (c: char)
        ensures
            c == Self::spec_escape(),
    ;
}

/// Comma-separated values: fields quoted and escaped with double quotes,
/// separated by commas.
#[derive(Copy, Clone, Debug)]
pub struct CsvConfig;

impl DsvFormat for CsvConfig {
    open spec fn spec_quote() -> char {
        '"'
    }

    open spec fn spec_delimiter() -> char {
        ','
    }

    open spec fn spec_escape() -> char {
        '"'
    }

    fn quote() -> (c: char) {
        '"'
    }

    fn delimiter() -> (c: char) {
        ','
    }

    fn escape() -> (c: char) {
        '"'
    }
}

/// A line of comma-separated values.
pub type CsvLine = DsvLine<CsvConfig>;

/// Whether a field must be quoted: it holds the quote, the delimiter, or
/// whitespace.
pub open spec fn spec_needs_quote<F: DsvFormat>(s: Seq<char>) -> bool {
    exists|i: int|
        0 <= i < s.len() && ((#[trigger] s[i]) == F::spec_quote() || s[i] == F::spec_delimiter()
            || spec_is_whitespace(s[i]))
}

/// A field's characters with every quote doubled behind the escape.
pub open spec fn spec_escaped<F: DsvFormat>(s: Seq<char>) -> Seq<char>
    decreases s.len(),
{
    if s.len() == 0 {
        Seq::empty()
    } else {
        spec_escaped::<F>(s.drop_last()) + (if s.last() == F::spec_quote() {
            seq![F::spec_escape(), F::spec_quote()]
        } else {
            seq![s.last()]
        })
    }
}

/// One encoded field followed by the delimiter: quoted and escaped when the
/// field needs it, verbatim otherwise.
pub open spec fn spec_dsv_cell<F: DsvFormat>(s: Seq<char>) -> Seq<char> {
    if spec_needs_quote::<F>(s) {
        seq![F::spec_quote()] + spec_escaped::<F>(s) + seq![F::spec_quote()] + seq![
            F::spec_delimiter(),
        ]
    } else {
        s + seq![F::spec_delimiter()]
    }
}

/// One line being encoded in the format `F`.
#[derive(Debug)]
pub struct DsvLine<F: DsvFormat> {
    buffer: String,
    config: PhantomData<F>,
}

impl<F: DsvFormat> DsvLine<F> {
    /// What has been encoded so far.
    pub closed spec fn spec_buffer(&self) -> Seq<char> {
        self.buffer@
    }

    /// An empty line.
    pub fn new() -> (r: DsvLine<F>)
        ensures
            r.spec_buffer() == Seq::<char>::empty(),
    {
        DsvLine { buffer: String::new(), config: PhantomData }
    }

    /// Whether a field would have to be quoted: it holds the quote, the
    /// delimiter, or whitespace.
    pub fn needs_quote(&self, value: &str) -> (r: bool)
        ensures
            r == spec_needs_quote::<F>(value@),
    {
        let n = value.unicode_len();
        let mut i: usize = 0;
        while i < n
            invariant
                n == value@.len(),
                i <= n,
                forall|j: int|
                    0 <= j < i ==> !((#[trigger] value@[j]) == F::spec_quote() || value@[j]
                        == F::spec_delimiter() || spec_is_whitespace(value@[j])),
            decreases n - i,
        {
            let c = value.get_char(i);
            if c == F::quote() || c == F::delimiter() {
                return true;
            }
            if is_whitespace_char(c) {
                return true;
            }
            i = i + 1;
        }
        false
    }

    /// Appends one field and the delimiter, quoting and escaping the field
    /// when it needs it.
    pub fn push_str(&mut self, string: &str)
        ensures
            final(self).spec_buffer() == old(self).spec_buffer() + spec_dsv_cell::<F>(string@),
    {
        if self.needs_quote(string) {
            push_char(&mut self.buffer, F::quote());
            let n = string.unicode_len();
            let ghost mark = self.buffer@;
            let mut i: usize = 0;
            proof {
                assert(string@.take(0) =~= Seq::<char>::empty());
            }
            while i < n
                invariant
                    n == string@.len(),
                    i <= n,
                    self.buffer@ == mark + spec_escaped::<F>(string@.take(i as int)),
                decreases n - i,
            {
                proof {
                    assert(string@.take(i as int + 1).drop_last() =~= string@.take(i as int));
                    assert(string@.take(i as int + 1).last() == string@[i as int]);
                }
                let c = string.get_char(i);
                if c == F::quote() {
                    push_char(&mut self.buffer, F::escape());
                    push_char(&mut self.buffer, F::quote());
                } else {
                    push_char(&mut self.buffer, c);
                }
                proof {
                    assert(self.buffer@ =~= mark + spec_escaped::<F>(
                        string@.take(i as int + 1),
                    ));
                }
                i = i + 1;
            }
            proof {
                assert(string@.take(n as int) =~= string@);
            }
            push_char(&mut self.buffer, F::quote());
            push_char(&mut self.buffer, F::delimiter());
            proof {
                assert(self.buffer@ =~= old(self).spec_buffer() + spec_dsv_cell::<F>(string@));
            }
        } else {
            self.buffer.append(string);
            push_char(&mut self.buffer, F::delimiter());
            proof {
                assert(self.buffer@ =~= old(self).spec_buffer() + spec_dsv_cell::<F>(string@));
            }
        }
    }

    /// Appends the rendering of any displayable value as one field, with the
    /// delimiter.
    pub fn push_display<T: core::fmt::Display>(&mut self, value: T)
        ensures
            exists|rendered: Seq<char>|
                final(self).spec_buffer() == old(self).spec_buffer() + #[trigger] spec_dsv_cell::<
                    F,
                >(rendered),
    {
        let rendered = value.to_string();
        self.push_str(rendered.as_str());
    }

    /// Appends the byte-order mark, so spreadsheet programs read the file as
    /// UTF-8.
    pub fn push_utf8_bom(&mut self)
        ensures
            final(self).spec_buffer() == old(self).spec_buffer().push('\u{feff}'),
    {
        push_char(&mut self.buffer, '\u{feff}');
    }

    /// Closes the line with a newline and hands the encoding out.
    pub fn finish(self) -> (r: String)
        ensures
            r@ == self.spec_buffer().push('\n'),
    {
        let mut buffer = self.buffer;
        push_char(&mut buffer, '\n');
        buffer
    }
}

} // verus!
