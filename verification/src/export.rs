//! Delimited-text rendering of drained member records.
//!
//! One output file holds a header row naming the nine record fields and
//! one data row per record, in iteration order.  A field that contains a
//! separator, a quote or a line break is quoted, with inner quotes
//! doubled; optional fields render as empty when absent.

use vstd::prelude::*;

use crate::member::{opt_view, MemberRecord, MemberView};

verus! {

/// Characters that force a field to be quoted.
pub open spec fn is_special(c: char) -> bool {
    c == ',' || c == '"' || c == '\n' || c == '\r'
}

/// Whether a field must be wrapped in quotes to survive the format.
pub open spec fn needs_quoting(f: Seq<char>) -> bool {
    exists|i: int| 0 <= i < f.len() && is_special(f[i])
}

/// How one character of a quoted field is written out.
pub open spec fn escaped_char(c: char) -> Seq<char> {
    if c == '"' {
        seq!['"', '"']
    } else {
        seq![c]
    }
}

/// A field's text with every inner quote doubled.
pub open spec fn escaped(f: Seq<char>) -> Seq<char>
    decreases f.len(),
{
    if f.len() == 0 {
        Seq::empty()
    } else {
        escaped_char(f[0]) + escaped(f.drop_first())
    }
}

/// How one field appears in the output: quoted and escaped when it holds
/// a special character, verbatim otherwise.
pub open spec fn rendered_field(f: Seq<char>) -> Seq<char> {
    if needs_quoting(f) {
        seq!['"'] + escaped(f) + seq!['"']
    } else {
        f
    }
}

/// The fields of one row, rendered and separated by commas.
pub open spec fn joined(fields: Seq<Seq<char>>) -> Seq<char>
    decreases fields.len(),
{
    if fields.len() == 0 {
        Seq::empty()
    } else if fields.len() == 1 {
        rendered_field(fields[0])
    } else {
        rendered_field(fields[0]) + seq![','] + joined(fields.drop_first())
    }
}

/// One full output row: the joined fields and a line break.
pub open spec fn rendered_line(fields: Seq<Seq<char>>) -> Seq<char> {
    joined(fields) + seq!['\n']
}

/// The names of the nine record fields, in the fixed output order.
pub open spec fn header_fields() -> Seq<Seq<char>> {
    seq![
        "username"@,
        "first_name"@,
        "last_name"@,
        "scam"@,
        "phone"@,
        "verified"@,
        "is_bot"@,
        "is_support"@,
        "role"@,
    ]
}

/// How a boolean flag is written out.
pub open spec fn bool_text(b: bool) -> Seq<char> {
    if b {
        "true"@
    } else {
        "false"@
    }
}

/// An optional text field, empty when absent.
pub open spec fn text_or_empty(s: Option<Seq<char>>) -> Seq<char> {
    match s {
        Some(t) => t,
        None => Seq::empty(),
    }
}

/// The nine fields of one record's data row, in the fixed output order.
pub open spec fn spec_row(m: MemberView) -> Seq<Seq<char>> {
    seq![
        text_or_empty(m.username),
        m.first_name,
        text_or_empty(m.last_name),
        bool_text(m.scam),
        text_or_empty(m.phone),
        bool_text(m.verified),
        bool_text(m.is_bot),
        bool_text(m.is_support),
        m.role,
    ]
}

/// The data rows of a record sequence, in iteration order.
pub open spec fn record_lines(records: Seq<MemberRecord>) -> Seq<char>
    decreases records.len(),
{
    if records.len() == 0 {
        Seq::empty()
    } else {
        rendered_line(spec_row(records[0]@)) + record_lines(records.drop_first())
    }
}

/// The full content of one export file: the header row, then one data
/// row per record.
pub open spec fn spec_export(records: Seq<MemberRecord>) -> Seq<char> {
    rendered_line(header_fields()) + record_lines(records)
}

proof fn lemma_escaped_snoc(f: Seq<char>, c: char)
    ensures
        escaped(f.push(c)) == escaped(f) + escaped_char(c),
    decreases f.len(),
{
    if f.len() == 0 {
        assert(f =~= Seq::<char>::empty());
        assert(f.push(c).drop_first() =~= f);
        assert(f.push(c)[0] == c);
        assert(escaped(f.push(c)) =~= escaped(f) + escaped_char(c));
    } else {
        assert(f.push(c).drop_first() =~= f.drop_first().push(c));
        lemma_escaped_snoc(f.drop_first(), c);
        assert(escaped(f.push(c)) =~= escaped(f) + escaped_char(c));
    }
}

proof fn lemma_joined_snoc(fields: Seq<Seq<char>>, f: Seq<char>)
    requires
        fields.len() >= 1,
    ensures
        joined(fields.push(f)) == joined(fields) + seq![','] + rendered_field(f),
    decreases fields.len(),
{
    if fields.len() == 1 {
        assert(fields.push(f).drop_first() =~= seq![f]);
        assert(joined(seq![f]) == rendered_field(f));
        assert(joined(fields.push(f)) =~= joined(fields) + seq![','] + rendered_field(f));
    } else {
        assert(fields.push(f).drop_first() =~= fields.drop_first().push(f));
        lemma_joined_snoc(fields.drop_first(), f);
        assert(joined(fields.push(f)) =~= joined(fields) + seq![','] + rendered_field(f));
    }
}

proof fn lemma_record_lines_snoc(records: Seq<MemberRecord>, m: MemberRecord)
    ensures
        record_lines(records.push(m)) == record_lines(records) + rendered_line(spec_row(m@)),
    decreases records.len(),
{
    if records.len() == 0 {
        assert(records =~= Seq::<MemberRecord>::empty());
        assert(records.push(m).drop_first() =~= records);
        assert(records.push(m)[0] == m);
        assert(record_lines(records.push(m)) =~= record_lines(records) + rendered_line(
            spec_row(m@),
        ));
    } else {
        assert(records.push(m).drop_first() =~= records.drop_first().push(m));
        lemma_record_lines_snoc(records.drop_first(), m);
        assert(record_lines(records.push(m)) =~= record_lines(records) + rendered_line(
            spec_row(m@),
        ));
    }
}

/// An optional text field as it enters a row: its text, or empty.
fn text_field(s: &Option<String>) -> (r: String)
    ensures
        r@ == text_or_empty(opt_view(*s)),
{
    match s {
        Some(t) => t.clone(),
        None => String::new(),
    }
}

/// A boolean flag as it enters a row.
fn flag_field(b: bool) -> (r: String)
    ensures
        r@ == bool_text(b),
{
    if b {
        "true".to_owned()
    } else {
        "false".to_owned()
    }
}

impl MemberRecord {
    /// The record's nine output fields, in the fixed order; optional
    /// fields render as empty, flags as their truth value.
    pub fn row_fields(&self) -> (r: Vec<String>)
        ensures
            r@.len() == 9,
            r@.map_values(|s: String| s@) == spec_row(self@),
    {
        let mut r: Vec<String> = Vec::new();
        r.push(text_field(&self.username));
        r.push(self.first_name.clone());
        r.push(text_field(&self.last_name));
        r.push(flag_field(self.scam));
        r.push(text_field(&self.phone));
        r.push(flag_field(self.verified));
        r.push(flag_field(self.is_bot));
        r.push(flag_field(self.is_support));
        r.push(self.role.clone());
        proof {
            assert(r@.map_values(|s: String| s@) =~= spec_row(self@));
        }
        r
    }
}

/// The nine field names as one allocated header row.
pub fn header_row() -> (r: Vec<String>)
    ensures
        r@.len() == 9,
        r@.map_values(|s: String| s@) == header_fields(),
{
    let mut r: Vec<String> = Vec::new();
    r.push("username".to_owned());
    r.push("first_name".to_owned());
    r.push("last_name".to_owned());
    r.push("scam".to_owned());
    r.push("phone".to_owned());
    r.push("verified".to_owned());
    r.push("is_bot".to_owned());
    r.push("is_support".to_owned());
    r.push("role".to_owned());
    proof {
        assert(r@.map_values(|s: String| s@) =~= header_fields());
    }
    r
}

/// Whether this field must be quoted in the output.
fn field_needs_quoting(f: &str) -> (b: bool)
    ensures
        b == needs_quoting(f@),
{
    let n = f.unicode_len();
    let mut i: usize = 0;
    while i < n
        invariant
            i <= n,
            n == f@.len(),
            forall|j: int| 0 <= j < i ==> !is_special(f@[j]),
        decreases n - i,
    {
        let c = f.get_char(i);
        if c == ',' || c == '"' || c == '\n' || c == '\r' {
            assert(is_special(f@[i as int]));
            return true;
        }
        i += 1;
    }
    false
}

/// A copy of the field with every quote doubled.
fn escape_field(f: &str) -> (r: String)
    ensures
        r@ == escaped(f@),
{
    let n = f.unicode_len();
    let mut r = String::new();
    let mut i: usize = 0;
    while i < n
        invariant
            i <= n,
            n == f@.len(),
            r@ == escaped(f@.subrange(0, i as int)),
        decreases n - i,
    {
        let c = f.get_char(i);
        proof {
            lemma_escaped_snoc(f@.subrange(0, i as int), f@[i as int]);
            assert(f@.subrange(0, i as int).push(f@[i as int]) =~= f@.subrange(0, i as int + 1));
        }
        if c == '"' {
            r.append("\"\"");
            proof {
                reveal_strlit("\"\"");
                assert("\"\""@ =~= escaped_char('"'));
            }
        } else {
            let piece = f.substring_char(i, i + 1);
            r.append(piece);
            proof {
                assert(piece@ =~= escaped_char(c));
            }
        }
        i += 1;
    }
    proof {
        assert(f@.subrange(0, n as int) =~= f@);
    }
    r
}

/// One field as it appears in the output.
fn render_field(f: &str) -> (r: String)
    ensures
        r@ == rendered_field(f@),
{
    if field_needs_quoting(f) {
        let mut r = String::new();
        r.append("\"");
        let escaped_text = escape_field(f);
        r.append(escaped_text.as_str());
        r.append("\"");
        proof {
            reveal_strlit("\"");
            assert("\""@ =~= seq!['"']);
            assert(r@ =~= rendered_field(f@));
        }
        r
    } else {
        let r = f.to_owned();
        r
    }
}

/// One output row built from rendered fields and comma separators.
fn render_line(fields: &Vec<String>) -> (r: String)
    requires
        fields@.len() >= 1,
    ensures
        r@ == rendered_line(fields@.map_values(|s: String| s@)),
{
    let ghost all: Seq<Seq<char>> = fields@.map_values(|s: String| s@);
    let mut r = render_field(fields[0].as_str());
    let mut i: usize = 1;
    proof {
        assert(all.subrange(0, 1) =~= seq![all[0]]);
        assert(joined(seq![all[0]]) == rendered_field(all[0]));
    }
    while i < fields.len()
        invariant
            1 <= i <= fields.len(),
            all == fields@.map_values(|s: String| s@),
            all.len() == fields@.len(),
            r@ == joined(all.subrange(0, i as int)),
        decreases fields.len() - i,
    {
        proof {
            lemma_joined_snoc(all.subrange(0, i as int), all[i as int]);
            assert(all.subrange(0, i as int).push(all[i as int]) =~= all.subrange(
                0,
                i as int + 1,
            ));
        }
        r.append(",");
        let piece = render_field(fields[i].as_str());
        r.append(piece.as_str());
        proof {
            reveal_strlit(",");
            assert(","@ =~= seq![',']);
            assert(r@ =~= joined(all.subrange(0, i as int + 1)));
        }
        i += 1;
    }
    proof {
        assert(all.subrange(0, all.len() as int) =~= all);
    }
    r.append("\n");
    proof {
        reveal_strlit("\n");
        assert("\n"@ =~= seq!['\n']);
        assert(r@ =~= rendered_line(all));
    }
    r
}

/// The full text of one export file: the header row, then one data row
/// per record, in iteration order.  An empty record sequence yields a
/// file that holds only the header row.
pub fn export_csv(records: &Vec<MemberRecord>) -> (out: String)
    ensures
        out@ == spec_export(records@),
        records@.len() == 0 ==> out@ == rendered_line(header_fields()),
{
    let header = header_row();
    let mut out = render_line(&header);
    proof {
        assert(out@ == rendered_line(header_fields()));
        assert(record_lines(records@.subrange(0, 0)) =~= Seq::<char>::empty());
        assert(out@ =~= rendered_line(header_fields()) + record_lines(records@.subrange(0, 0)));
    }
    let mut i: usize = 0;
    while i < records.len()
        invariant
            i <= records@.len(),
            out@ == rendered_line(header_fields()) + record_lines(records@.subrange(0, i as int)),
        decreases records@.len() - i,
    {
        let fields = records[i].row_fields();
        let line = render_line(&fields);
        proof {
            lemma_record_lines_snoc(records@.subrange(0, i as int), records@[i as int]);
            assert(records@.subrange(0, i as int).push(records@[i as int]) =~= records@.subrange(
                0,
                i as int + 1,
            ));
        }
        out.append(line.as_str());
        proof {
            assert(out@ =~= rendered_line(header_fields()) + record_lines(
                records@.subrange(0, i as int + 1),
            ));
        }
        i += 1;
    }
    proof {
        assert(records@.subrange(0, records@.len() as int) =~= records@);
    }
    out
}

} // verus!
