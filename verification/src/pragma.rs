//! Pragma helpers: building the SQL text that queries and updates pragma
//! values.
//!
//! The host engine receives pragma statements as text, so everything the
//! pragma operations compute is a string: keyword checks, identifier
//! quoting, literal escaping, and value rendering.  Running the statements
//! is the engine's work and happens outside this library; the functions
//! here return the exact text to prepare.

use vstd::prelude::*;

use crate::text::push_dec_i64;
use crate::text::spec_dec_signed;
use vstd::std_specs::iter::IteratorSpec;

verus! {

/// Name of a schema slot within one connection: the main database, the
/// temporary database, or an attached database.
#[derive(Clone, Debug, PartialEq, Eq)]
pub enum DatabaseName {
    Main,
    Temp,
    Attached(String),
}

impl DatabaseName {
    /// The schema name this denotes, as text.
    pub open spec fn spec_name(&self) -> Seq<char> {
        match self {
            DatabaseName::Main => "main"@,
            DatabaseName::Temp => "temp"@,
            DatabaseName::Attached(s) => s@,
        }
    }

    /// The schema name as a string slice.
    pub fn name(&self) -> (s: &str)
        ensures
            s@ == self.spec_name(),
    {
        match self {
            DatabaseName::Main => "main",
            DatabaseName::Temp => "temp",
            DatabaseName::Attached(s) => s.as_str(),
        }
    }
}

/// A value a pragma can be set to.  Real-valued pragmas are not rendered
/// here (floating point stays outside the library); the boundary glue
/// renders those itself.
#[derive(Clone, Debug, PartialEq, Eq)]
pub enum Value {
    Null,
    Integer(i64),
    Text(String),
    Blob(Vec<u8>),
}

/// Errors of the SQL text builder.
#[derive(Clone, Debug, PartialEq, Eq)]
pub enum SqlError {
    /// The given text is not a bare keyword; carries the offending text.
    InvalidKeyword(String),
    /// The value kind cannot be rendered into pragma text.
    UnsupportedValue,
}

/// Whether `c` may open a bare identifier: an ASCII letter, an underscore,
/// or anything past the ASCII range.
pub open spec fn spec_is_identifier_start(c: char) -> bool {
    ||| 65 <= c as u32 <= 90  // 'A' ..= 'Z'
    ||| c == '_'
    ||| 97 <= c as u32 <= 122  // 'a' ..= 'z'
    ||| c as u32 > 127
}

/// Whether `c` may continue a bare identifier: a dollar sign, an ASCII
/// digit, or anything [`spec_is_identifier_start`] accepts.
pub open spec fn spec_is_identifier_continue(c: char) -> bool {
    ||| c == '$'
    ||| 48 <= c as u32 <= 57  // '0' ..= '9'
    ||| spec_is_identifier_start(c)
}

/// Whether `s` is a bare identifier: the first character may open one and
/// every later character may continue one.  The empty text is vacuously an
/// identifier; the keyword check rejects it separately.
pub open spec fn spec_is_identifier(s: Seq<char>) -> bool {
    forall|i: int|
        0 <= i < s.len() ==> if i == 0 {
            spec_is_identifier_start(s[i])
        } else {
            spec_is_identifier_continue(s[i])
        }
}

/// Whether `c` may open a bare identifier.
pub fn is_identifier_start(c: char) -> (b: bool)
    ensures
        b == spec_is_identifier_start(c),
{
    let u = c as u32;
    (65 <= u && u <= 90) || c == '_' || (97 <= u && u <= 122) || u > 127
}

/// Whether `c` may continue a bare identifier.
pub fn is_identifier_continue(c: char) -> (b: bool)
    ensures
        b == spec_is_identifier_continue(c),
{
    let u = c as u32;
    c == '$' || (48 <= u && u <= 57) || is_identifier_start(c)
}

/// Whether `s` is a bare identifier.
pub fn is_identifier(s: &str) -> (b: bool)
    ensures
        b == spec_is_identifier(s@),
{
    broadcast use vstd::string::next_postcondition, vstd::string::axiom_spec_iter;

    let mut it = s.chars();
    let ghost consumed: int = 0;
    let mut first = true;
    let mut ok = true;
    proof {
        assert(it.remaining() =~= s@.skip(0));
    }
    loop
        invariant
            0 <= consumed <= s@.len(),
            vstd::std_specs::iter::IteratorSpec::remaining(&it) == s@.skip(consumed),
            first == (consumed == 0),
            ok == (forall|j: int|
                0 <= j < consumed ==> if j == 0 {
                    spec_is_identifier_start(s@[j])
                } else {
                    spec_is_identifier_continue(s@[j])
                }),
        ensures
            consumed == s@.len(),
            ok == (forall|j: int|
                0 <= j < consumed ==> if j == 0 {
                    spec_is_identifier_start(s@[j])
                } else {
                    spec_is_identifier_continue(s@[j])
                }),
        decreases s@.len() - consumed,
    {
        match it.next() {
            None => {
                proof {
                    assert(s@.skip(consumed).len() == 0);
                    assert(consumed == s@.len());
                }
                break ;
            },
            Some(c) => {
                proof {
                    assert(s@.skip(consumed).len() > 0);
                    assert(c == s@.skip(consumed)[0]);
                    assert(c == s@[consumed]);
                    assert(s@.skip(consumed).drop_first() =~= s@.skip(consumed + 1));
                }
                let this_ok = if first {
                    is_identifier_start(c)
                } else {
                    is_identifier_continue(c)
                };
                ok = ok && this_ok;
                first = false;
                proof {
                    consumed = consumed + 1;
                }
            },
        }
    }
    ok
}

/// The text of `s` with every occurrence of `q` doubled.
pub open spec fn spec_escaped(s: Seq<char>, q: char) -> Seq<char>
    decreases s.len(),
{
    if s.len() == 0 {
        Seq::empty()
    } else {
        spec_escaped(s.drop_last(), q) + if s.last() == q {
            seq![q, q]
        } else {
            seq![s.last()]
        }
    }
}

/// The text of `s` wrapped in `q` quotes, occurrences of `q` doubled.
pub open spec fn spec_quoted(s: Seq<char>, q: char) -> Seq<char> {
    seq![q] + spec_escaped(s, q) + seq![q]
}

/// Appends `s` wrapped in `quote` to `out`, doubling each embedded quote.
pub fn push_quoted(out: &mut String, s: &str, quote: char)
    ensures
        final(out)@ == old(out)@ + spec_quoted(s@, quote),
{
    broadcast use vstd::string::next_postcondition, vstd::string::axiom_spec_iter;

    out.push(quote);
    let mut it = s.chars();
    let ghost consumed: int = 0;
    proof {
        assert(it.remaining() =~= s@.skip(0));
        assert(out@ =~= old(out)@ + seq![quote] + spec_escaped(s@.take(0), quote));
    }
    loop
        invariant
            0 <= consumed <= s@.len(),
            vstd::std_specs::iter::IteratorSpec::remaining(&it) == s@.skip(consumed),
            out@ == old(out)@ + seq![quote] + spec_escaped(s@.take(consumed), quote),
        ensures
            consumed == s@.len(),
            out@ == old(out)@ + seq![quote] + spec_escaped(s@.take(consumed), quote),
        decreases s@.len() - consumed,
    {
        match it.next() {
            None => {
                proof {
                    assert(s@.skip(consumed).len() == 0);
                    assert(consumed == s@.len());
                    assert(s@.take(consumed) =~= s@);
                }
                break ;
            },
            Some(c) => {
                proof {
                    assert(s@.skip(consumed).len() > 0);
                    assert(c == s@.skip(consumed)[0]);
                    assert(c == s@[consumed]);
                    assert(s@.skip(consumed).drop_first() =~= s@.skip(consumed + 1));
                }
                if c == quote {
                    out.push(c);
                }
                out.push(c);
                proof {
                    assert(s@.take(consumed + 1).drop_last() =~= s@.take(consumed));
                    assert(s@.take(consumed + 1).last() == c);
                    assert(out@ =~= old(out)@ + seq![quote] + spec_escaped(
                        s@.take(consumed + 1),
                        quote,
                    ));
                    consumed = consumed + 1;
                }
            },
        }
    }
    out.push(quote);
    proof {
        assert(s@.take(s@.len() as int) =~= s@);
        assert(out@ =~= old(out)@ + spec_quoted(s@, quote));
    }
}

/// The text [`Sql::push_identifier`] appends: the bare text when it is an
/// identifier, otherwise the text double-quoted and escaped.
pub open spec fn spec_identifier_text(s: Seq<char>) -> Seq<char> {
    if spec_is_identifier(s) {
        s
    } else {
        spec_quoted(s, '"')
    }
}

/// The text [`Sql::push_schema_name`] appends for a schema name.
pub open spec fn spec_schema_text(db: &DatabaseName) -> Seq<char> {
    match db {
        DatabaseName::Main => "main"@,
        DatabaseName::Temp => "temp"@,
        DatabaseName::Attached(s) => spec_identifier_text(s@),
    }
}

/// A growing piece of SQL text.
pub struct Sql {
    buf: String,
}

impl View for Sql {
    type V = Seq<char>;

    closed spec fn view(&self) -> Seq<char> {
        self.buf@
    }
}

impl Sql {
    /// An empty piece of SQL text.
    pub fn new() -> (s: Sql)
        ensures
            s@ == Seq::<char>::empty(),
    {
        Sql { buf: String::new() }
    }

    /// The text built so far.
    pub fn as_str(&self) -> (s: &str)
        ensures
            s@ == self@,
    {
        self.buf.as_str()
    }

    /// Appends `PRAGMA `, the schema prefix when one is given, and the
    /// pragma's name, which must be a non-empty bare keyword; on an invalid
    /// keyword the text up to and including the schema prefix stays
    /// appended and the error carries the offending name.
    pub fn push_pragma(&mut self, schema_name: Option<&DatabaseName>, pragma_name: &str) -> (r:
        Result<(), SqlError>)
        ensures
            pragma_name@.len() > 0 && spec_is_identifier(pragma_name@) ==> r == Ok::<
                (),
                SqlError,
            >(()) && final(self)@ == old(self)@ + spec_pragma_text(schema_name, pragma_name@),
            !(pragma_name@.len() > 0 && spec_is_identifier(pragma_name@)) ==> (r matches Err(e)
                && e matches SqlError::InvalidKeyword(k) && k@ == pragma_name@) && final(self)@
                == old(self)@ + spec_pragma_prefix(schema_name),
    {
        let kw = self.push_keyword("PRAGMA");
        proof {
            reveal_strlit("PRAGMA");
            assert(spec_is_identifier("PRAGMA"@)) by {
                assert forall|i: int| 0 <= i < "PRAGMA"@.len() implies if i == 0 {
                    spec_is_identifier_start("PRAGMA"@[i])
                } else {
                    spec_is_identifier_continue("PRAGMA"@[i])
                } by {
                    if i == 1 {
                        assert("PRAGMA"@[1] == 'R');
                    } else if i == 2 {
                        assert("PRAGMA"@[2] == 'A');
                    } else if i == 3 {
                        assert("PRAGMA"@[3] == 'G');
                    } else if i == 4 {
                        assert("PRAGMA"@[4] == 'M');
                    } else if i == 5 {
                        assert("PRAGMA"@[5] == 'A');
                    }
                }
            }
            assert(kw == Ok::<(), SqlError>(()));
        }
        self.push_space();
        if let Some(db) = schema_name {
            self.push_schema_name(db);
            self.push_dot();
        }
        let r = self.push_keyword(pragma_name);
        proof {
            assert(final(self)@ =~= old(self)@ + spec_pragma_prefix(schema_name) + (
            if pragma_name@.len() > 0 && spec_is_identifier(pragma_name@) {
                pragma_name@
            } else {
                Seq::<char>::empty()
            }));
        }
        r
    }

    /// Appends `keyword` when it is a non-empty bare identifier; otherwise
    /// appends nothing and reports it invalid.
    pub fn push_keyword(&mut self, keyword: &str) -> (r: Result<(), SqlError>)
        ensures
            keyword@.len() > 0 && spec_is_identifier(keyword@) ==> r == Ok::<(), SqlError>(())
                && final(self)@ == old(self)@ + keyword@,
            !(keyword@.len() > 0 && spec_is_identifier(keyword@)) ==> (r matches Err(e)
                && e matches SqlError::InvalidKeyword(k) && k@ == keyword@) && final(self)@ == old(
                self,
            )@,
    {
        if !keyword.is_empty() && is_identifier(keyword) {
            self.buf.push_str(keyword);
            Ok(())
        } else {
            Err(SqlError::InvalidKeyword(keyword.to_owned()))
        }
    }

    /// Appends a schema name: `main` and `temp` verbatim, an attached name
    /// as an identifier (double-quoted when not bare).
    pub fn push_schema_name(&mut self, schema_name: &DatabaseName)
        ensures
            final(self)@ == old(self)@ + spec_schema_text(schema_name),
    {
        match schema_name {
            DatabaseName::Main => self.buf.push_str("main"),
            DatabaseName::Temp => self.buf.push_str("temp"),
            DatabaseName::Attached(s) => self.push_identifier(s.as_str()),
        }
    }

    /// Appends `s` bare when it is an identifier, and double-quoted with
    /// embedded double quotes doubled otherwise.
    pub fn push_identifier(&mut self, s: &str)
        ensures
            final(self)@ == old(self)@ + spec_identifier_text(s@),
    {
        if is_identifier(s) {
            self.buf.push_str(s);
        } else {
            self.wrap_and_escape(s, '"');
        }
    }

    /// Renders a pragma value: an integer in decimal, text as a
    /// single-quoted literal; null and blob values cannot appear in pragma
    /// text and are reported unsupported, appending nothing.
    pub fn push_value(&mut self, value: &Value) -> (r: Result<(), SqlError>)
        ensures
            match value {
                Value::Integer(i) => r == Ok::<(), SqlError>(()) && final(self)@ == old(self)@
                    + spec_dec_signed(*i as int),
                Value::Text(t) => r == Ok::<(), SqlError>(()) && final(self)@ == old(self)@
                    + spec_quoted(t@, '\''),
                _ => r == Err::<(), SqlError>(SqlError::UnsupportedValue) && final(self)@ == old(
                    self,
                )@,
            },
    {
        match value {
            Value::Integer(i) => {
                self.push_int(*i);
                Ok(())
            },
            Value::Text(t) => {
                self.push_string_literal(t.as_str());
                Ok(())
            },
            _ => Err(SqlError::UnsupportedValue),
        }
    }

    /// Appends `s` as a single-quoted string literal, embedded single
    /// quotes doubled.
    pub fn push_string_literal(&mut self, s: &str)
        ensures
            final(self)@ == old(self)@ + spec_quoted(s@, '\''),
    {
        self.wrap_and_escape(s, '\'');
    }

    /// Appends the decimal rendering of `i`.
    pub fn push_int(&mut self, i: i64)
        ensures
            final(self)@ == old(self)@ + spec_dec_signed(i as int),
    {
        push_dec_i64(&mut self.buf, i);
    }

    /// Appends one space.
    pub fn push_space(&mut self)
        ensures
            final(self)@ == old(self)@.push(' '),
    {
        self.buf.push(' ');
    }

    /// Appends one dot.
    pub fn push_dot(&mut self)
        ensures
            final(self)@ == old(self)@.push('.'),
    {
        self.buf.push('.');
    }

    /// Appends one equals sign.
    pub fn push_equal_sign(&mut self)
        ensures
            final(self)@ == old(self)@.push('='),
    {
        self.buf.push('=');
    }

    /// Appends one opening parenthesis.
    pub fn open_brace(&mut self)
        ensures
            final(self)@ == old(self)@.push('('),
    {
        self.buf.push('(');
    }

    /// Appends one closing parenthesis.
    pub fn close_brace(&mut self)
        ensures
            final(self)@ == old(self)@.push(')'),
    {
        self.buf.push(')');
    }

    /// Appends `s` wrapped in `quote`, doubling each embedded quote.
    pub fn wrap_and_escape(&mut self, s: &str, quote: char)
        ensures
            final(self)@ == old(self)@ + spec_quoted(s@, quote),
    {
        push_quoted(&mut self.buf, s, quote);
    }

    /// The text built so far, as an owned string.
    pub fn into_string(self) -> (s: String)
        ensures
            s@ == self@,
    {
        let Sql { buf } = self;
        buf
    }
}

/// The rendering of a supported pragma value; meaningful only for the
/// integer and text kinds, which are the ones [`Sql::push_value`] accepts.
pub open spec fn spec_value_text(value: &Value) -> Seq<char> {
    match value {
        Value::Integer(i) => spec_dec_signed(*i as int),
        Value::Text(t) => spec_quoted(t@, '\''),
        _ => Seq::<char>::empty(),
    }
}

/// Whether [`Sql::push_value`] accepts the value.
pub open spec fn spec_value_supported(value: &Value) -> bool {
    value matches Value::Integer(_) || value matches Value::Text(_)
}

/// The statement text that queries the current value or rows of
/// `pragma_name`, optionally qualified by a schema: what the pragma-query
/// operations prepare and run on the engine.
pub fn pragma_query_sql(schema_name: Option<&DatabaseName>, pragma_name: &str) -> (r: Result<
    String,
    SqlError,
>)
    ensures
        pragma_name@.len() > 0 && spec_is_identifier(pragma_name@) ==> (r matches Ok(s) && s@
            == spec_pragma_text(schema_name, pragma_name@)),
        !(pragma_name@.len() > 0 && spec_is_identifier(pragma_name@)) ==> (r matches Err(e) && e
            matches SqlError::InvalidKeyword(k) && k@ == pragma_name@),
{
    let mut sql = Sql::new();
    match sql.push_pragma(schema_name, pragma_name) {
        Ok(()) => Ok(sql.into_string()),
        Err(e) => Err(e),
    }
}

/// The statement text that queries `pragma_name` with an argument in
/// parentheses (for query-only pragmas that take one, or pragmas returning
/// the updated value): what the pragma-with-value operation prepares.  An
/// invalid pragma name is reported before an unsupported value.
pub fn pragma_with_value_sql(
    schema_name: Option<&DatabaseName>,
    pragma_name: &str,
    value: &Value,
) -> (r: Result<String, SqlError>)
    ensures
        pragma_name@.len() > 0 && spec_is_identifier(pragma_name@) && spec_value_supported(value)
            ==> (r matches Ok(s) && s@ == spec_pragma_text(schema_name, pragma_name@)
            + seq!['('] + spec_value_text(value) + seq![')']),
        !(pragma_name@.len() > 0 && spec_is_identifier(pragma_name@)) ==> (r matches Err(e) && e
            matches SqlError::InvalidKeyword(k) && k@ == pragma_name@),
        pragma_name@.len() > 0 && spec_is_identifier(pragma_name@) && !spec_value_supported(value)
            ==> r == Err::<String, SqlError>(SqlError::UnsupportedValue),
{
    let mut sql = Sql::new();
    match sql.push_pragma(schema_name, pragma_name) {
        Ok(()) => (),
        Err(e) => {
            return Err(e);
        },
    }
    sql.open_brace();
    match sql.push_value(value) {
        Ok(()) => (),
        Err(e) => {
            return Err(e);
        },
    }
    sql.close_brace();
    proof {
        assert(sql@ =~= spec_pragma_text(schema_name, pragma_name@) + seq!['('] + spec_value_text(
            value,
        ) + seq![')']);
    }
    Ok(sql.into_string())
}

/// The statement text that sets `pragma_name` to `value` with an equals
/// sign: what the pragma-update operations prepare and run on the engine.
/// An invalid pragma name is reported before an unsupported value.
pub fn pragma_update_sql(
    schema_name: Option<&DatabaseName>,
    pragma_name: &str,
    value: &Value,
) -> (r: Result<String, SqlError>)
    ensures
        pragma_name@.len() > 0 && spec_is_identifier(pragma_name@) && spec_value_supported(value)
            ==> (r matches Ok(s) && s@ == spec_pragma_text(schema_name, pragma_name@)
            + seq!['='] + spec_value_text(value)),
        !(pragma_name@.len() > 0 && spec_is_identifier(pragma_name@)) ==> (r matches Err(e) && e
            matches SqlError::InvalidKeyword(k) && k@ == pragma_name@),
        pragma_name@.len() > 0 && spec_is_identifier(pragma_name@) && !spec_value_supported(value)
            ==> r == Err::<String, SqlError>(SqlError::UnsupportedValue),
{
    let mut sql = Sql::new();
    match sql.push_pragma(schema_name, pragma_name) {
        Ok(()) => (),
        Err(e) => {
            return Err(e);
        },
    }
    sql.push_equal_sign();
    match sql.push_value(value) {
        Ok(()) => (),
        Err(e) => {
            return Err(e);
        },
    }
    proof {
        assert(sql@ =~= spec_pragma_text(schema_name, pragma_name@) + seq!['='] + spec_value_text(
            value,
        ));
    }
    Ok(sql.into_string())
}

/// The `PRAGMA ` prefix with the optional schema qualifier, shared by every
/// pragma statement.
pub open spec fn spec_pragma_prefix(schema_name: Option<&DatabaseName>) -> Seq<char> {
    "PRAGMA"@ + seq![' '] + match schema_name {
        Some(db) => spec_schema_text(db) + seq!['.'],
        None => Seq::<char>::empty(),
    }
}

/// The full text of a pragma statement without argument.
pub open spec fn spec_pragma_text(schema_name: Option<&DatabaseName>, pragma: Seq<char>) -> Seq<
    char,
> {
    spec_pragma_prefix(schema_name) + pragma
}

} // verus!
