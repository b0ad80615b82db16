//! Header maps: how a `hyperx` header map is written out as a map from
//! header names to lists of lines, and how it is read back.
use hyperx::header::{Headers, RawLike};
use vstd::prelude::*;
use vstd::utf8::*;

use crate::{De, Ser};

verus! {

#[verifier::external_type_specification]
#[verifier::external_body]
pub struct ExHeaders(Headers);

/// The fields of a header map in the order in which the map keeps them: each
/// one is its name, spelled as it was last set, and its raw value lines.
pub uninterp spec fn header_fields(h: Headers) -> Seq<(Seq<char>, Seq<Seq<u8>>)>;

/// Whether every field of a header map that was set as a typed header
/// formats its value without error. A field set from raw lines needs no
/// formatting.
pub uninterp spec fn typed_fields_format(h: Headers) -> bool;

/// A character folded to lower case if it is an ASCII upper-case letter.
pub open spec fn fold_ascii(c: char) -> int {
    if 'A' <= c && c <= 'Z' {
        c as int + 32
    } else {
        c as int
    }
}

/// Header names are compared without regard to ASCII case.
pub open spec fn same_name(a: Seq<char>, b: Seq<char>) -> bool {
    &&& a.len() == b.len()
    &&& forall|i: int| 0 <= i < a.len() ==> #[trigger] fold_ascii(a[i]) == fold_ascii(b[i])
}

/// The index of the first field whose name is `name` (ignoring ASCII case),
/// or -1 when there is none.
pub open spec fn position_of(fields: Seq<(Seq<char>, Seq<Seq<u8>>)>, name: Seq<char>) -> int
    decreases fields.len(),
{
    if fields.len() == 0 {
        -1
    } else {
        let p = position_of(fields.drop_last(), name);
        if p >= 0 {
            p
        } else if same_name(fields.last().0, name) {
            fields.len() - 1
        } else {
            -1
        }
    }
}

/// No two fields share a name (ignoring ASCII case).
pub open spec fn distinct_names(fields: Seq<(Seq<char>, Seq<Seq<u8>>)>) -> bool {
    forall|i: int, j: int|
        0 <= i < j < fields.len() ==> !same_name(#[trigger] fields[i].0, #[trigger] fields[j].0)
}

/// Setting the lines of a name: the first field of that name is replaced,
/// name spelling included, in place; when there is none the field is added
/// at the end.
pub open spec fn set_field(
    fields: Seq<(Seq<char>, Seq<Seq<u8>>)>,
    name: Seq<char>,
    lines: Seq<Seq<u8>>,
) -> Seq<(Seq<char>, Seq<Seq<u8>>)> {
    let p = position_of(fields, name);
    if p >= 0 {
        fields.update(p, (name, lines))
    } else {
        fields.push((name, lines))
    }
}

/// The lines that a lookup of `name` finds: those of the first field with
/// that name.
pub open spec fn lines_of(fields: Seq<(Seq<char>, Seq<Seq<u8>>)>, name: Seq<char>) -> Seq<Seq<u8>> {
    fields[position_of(fields, name)].1
}

/// The byte sequences held by a vector of byte vectors.
pub open spec fn byte_lines(v: Seq<Vec<u8>>) -> Seq<Seq<u8>> {
    v.map_values(|l: Vec<u8>| l@)
}

/// Creates an empty header map.
#[verifier::external_body]
fn new_headers() -> (h: Headers)
    ensures
        header_fields(h) == Seq::<(Seq<char>, Seq<Seq<u8>>)>::empty(),
        typed_fields_format(h),
{
    Headers::new()
}

/// `Headers::set_raw`: replaces the first field whose name equals `name`
/// without regard to ASCII case (the stored name becomes `name`), or appends
/// a new field when there is none.
#[verifier::external_body]
fn set_raw_lines(h: &mut Headers, name: String, lines: Vec<Vec<u8>>)
    ensures
        header_fields(*final(h)) == set_field(header_fields(*old(h)), name@, byte_lines(lines@)),
        typed_fields_format(*old(h)) ==> typed_fields_format(*final(h)),
{
    h.set_raw(name, lines)
}

/// `Headers::iter` with `HeaderView::name`: the names of the fields, in
/// order. No two are the same without regard to ASCII case: a header map
/// only ever adds a field through `VecMap::insert` or `VecMap::entry`, which
/// replace the field of an equal name rather than add a second one.
#[verifier::external_body]
fn field_names(h: &Headers) -> (names: Vec<String>)
    ensures
        names@.len() == header_fields(*h).len(),
        forall|i: int| 0 <= i < names@.len() ==> #[trigger] names@[i]@ == header_fields(*h)[i].0,
        forall|i: int, j: int|
            0 <= i < j < names@.len() ==> !same_name(#[trigger] names@[i]@, #[trigger] names@[j]@),
{
    h.iter().map(|view| view.name().to_owned()).collect()
}

/// `Headers::get_raw` with `RawLike::iter`: the lines of the first field
/// whose name equals `name` without regard to ASCII case, or `None`.
/// A field that was set as a typed header gets its lines by formatting the
/// typed value (the lines are what `header_fields` holds, whatever they
/// are); where that formatting fails, `get_raw` panics, so it is required
/// not to.
#[verifier::external_body]
fn get_raw_lines(h: &Headers, name: &str) -> (lines: Option<Vec<Vec<u8>>>)
    requires
        typed_fields_format(*h),
    ensures
        match lines {
            Some(l) => position_of(header_fields(*h), name@) >= 0 && byte_lines(l@) == lines_of(
                header_fields(*h),
                name@,
            ),
            None => position_of(header_fields(*h), name@) < 0,
        },
{
    h.get_raw(name).map(|raw| raw.iter().map(|line| line.to_vec()).collect())
}

/// `std::str::from_utf8`: succeeds exactly on valid UTF-8, with the text
/// that the bytes encode.
#[verifier::external_body]
fn utf8_text<'a>(bytes: &'a [u8]) -> (text: Option<&'a str>)
    ensures
        text is Some <==> valid_utf8(bytes@),
        text matches Some(t) ==> t@ == decode_utf8(bytes@),
{
    std::str::from_utf8(bytes).ok()
}


/// A header value line as it is written out.
pub enum Line {
    /// The line as text: its bytes are valid UTF-8 and pretty output was
    /// asked for.
    Text(String),
    /// The line as a sequence of bytes.
    Bytes(Vec<u8>),
}

/// The mathematical value of a written line.
pub enum LineView {
    Text(Seq<char>),
    Bytes(Seq<u8>),
}

impl View for Line {
    type V = LineView;

    open spec fn view(&self) -> LineView {
        match self {
            Line::Text(t) => LineView::Text(t@),
            Line::Bytes(b) => LineView::Bytes(b@),
        }
    }
}

/// How one line is written: as text exactly when pretty output is asked for
/// and the bytes are valid UTF-8, else as bytes.
pub open spec fn encode_line(bytes: Seq<u8>, pretty: bool) -> LineView {
    if pretty && valid_utf8(bytes) {
        LineView::Text(decode_utf8(bytes))
    } else {
        LineView::Bytes(bytes)
    }
}

/// How a header map is written: one entry per field, in order, under the
/// field's name, with the lines that a lookup of that name finds.
pub open spec fn encoded_fields(fields: Seq<(Seq<char>, Seq<Seq<u8>>)>, pretty: bool) -> Seq<
    (Seq<char>, Seq<LineView>),
> {
    Seq::new(
        fields.len(),
        |i: int|
            (
                fields[i].0,
                lines_of(fields, fields[i].0).map_values(|b: Seq<u8>| encode_line(b, pretty)),
            ),
    )
}

/// The mathematical value of written entries.
pub open spec fn written_view(out: Seq<(String, Vec<Line>)>) -> Seq<(Seq<char>, Seq<LineView>)> {
    Seq::new(out.len(), |i: int| (out[i].0@, out[i].1@.map_values(|l: Line| l@)))
}

/// The bytes that a written line stands for when it is read back: the UTF-8
/// encoding of a text line, the bytes of a byte line.
pub open spec fn line_bytes(l: LineView) -> Seq<u8> {
    match l {
        LineView::Text(t) => encode_utf8(t),
        LineView::Bytes(b) => b,
    }
}

/// Written entries as they are read back: each line becomes its bytes.
pub open spec fn read_back(written: Seq<(Seq<char>, Seq<LineView>)>) -> Seq<
    (Seq<char>, Seq<Seq<u8>>),
> {
    Seq::new(
        written.len(),
        |i: int| (written[i].0, written[i].1.map_values(|l: LineView| line_bytes(l))),
    )
}

/// The mathematical value of entries handed to `decode_headers`.
pub open spec fn entries_view(entries: Seq<(String, Vec<Vec<u8>>)>) -> Seq<
    (Seq<char>, Seq<Seq<u8>>),
> {
    Seq::new(entries.len(), |i: int| (entries[i].0@, byte_lines(entries[i].1@)))
}

/// The fields of the map that reading `entries` in order builds: each entry
/// sets the lines of its name.
pub open spec fn decoded_fields(entries: Seq<(Seq<char>, Seq<Seq<u8>>)>) -> Seq<
    (Seq<char>, Seq<Seq<u8>>),
>
    decreases entries.len(),
{
    if entries.len() == 0 {
        Seq::empty()
    } else {
        let last = entries.last();
        set_field(decoded_fields(entries.drop_last()), last.0, last.1)
    }
}

/// Writes one line.
fn encode_line_exec(bytes: Vec<u8>, pretty: bool) -> (line: Line)
    ensures
        line@ == encode_line(bytes@, pretty),
{
    if pretty {
        if let Some(text) = utf8_text(bytes.as_slice()) {
            return Line::Text(text.to_owned());
        }
    }
    Line::Bytes(bytes)
}

/// Writes a header map as a list of entries, one per field, each holding the
/// field's name and its lines. With `pretty`, lines that are valid UTF-8 are
/// written as text; all others, and all lines without `pretty`, as bytes.
/// The entries, read back, give the map again.
pub fn encode_headers(h: &Headers, pretty: bool) -> (out: Vec<(String, Vec<Line>)>)
    requires
        typed_fields_format(*h),
    ensures
        written_view(out@) == encoded_fields(header_fields(*h), pretty),
        out@.len() == header_fields(*h).len(),
        decoded_fields(read_back(written_view(out@))) == header_fields(*h),
{
    let ghost fields = header_fields(*h);
    let names = field_names(h);
    proof {
        assert forall|i: int, j: int| 0 <= i < j < fields.len() implies !same_name(
            #[trigger] fields[i].0,
            #[trigger] fields[j].0,
        ) by {
            assert(names@[i]@ == fields[i].0 && names@[j]@ == fields[j].0);
        }
        lemma_headers_round_trip(*h, pretty);
    }
    let mut out: Vec<(String, Vec<Line>)> = Vec::new();
    let mut i: usize = 0;
    while i < names.len()
        invariant
            fields == header_fields(*h),
            typed_fields_format(*h),
            names@.len() == fields.len(),
            forall|k: int| 0 <= k < names@.len() ==> #[trigger] names@[k]@ == fields[k].0,
            0 <= i <= names.len(),
            written_view(out@) =~= encoded_fields(fields, pretty).take(i as int),
        decreases names.len() - i,
    {
        let name = &names[i];
        proof {
            lemma_position_of_found(fields, i as int, name@);
        }
        let raw = get_raw_lines(h, name.as_str()).unwrap();
        let ghost want = lines_of(fields, name@);
        let mut lines: Vec<Line> = Vec::new();
        for line in it: raw
            invariant
                it.seq() == raw@,
                byte_lines(raw@) == want,
                lines@.len() == it.index(),
                forall|k: int|
                    0 <= k < it.index() ==> #[trigger] lines@[k]@ == encode_line(want[k], pretty),
        {
            let l = encode_line_exec(line, pretty);
            lines.push(l);
        }
        let ghost old_out = out@;
        let field_name = name.clone();
        assert(lines@.map_values(|l: Line| l@) =~= want.map_values(
            |b: Seq<u8>| encode_line(b, pretty),
        ));
        out.push((field_name, lines));
        assert(written_view(out@) =~= written_view(old_out).push(
            encoded_fields(fields, pretty)[i as int],
        ));
        i = i + 1;
    }
    assert(written_view(out@).len() == out@.len());
    out
}

/// Reads a header map back from its entries, in order: each entry sets the
/// lines of its name, replacing those of an earlier entry with the same
/// name (ignoring ASCII case). No entries give the empty map.
pub fn decode_headers(entries: Vec<(String, Vec<Vec<u8>>)>) -> (h: Headers)
    ensures
        header_fields(h) == decoded_fields(entries_view(entries@)),
        typed_fields_format(h),
{
    let ghost view = entries_view(entries@);
    let mut h = new_headers();
    for entry in it: entries
        invariant
            it.seq() == entries@,
            view == entries_view(entries@),
            header_fields(h) == decoded_fields(view.take(it.index())),
            typed_fields_format(h),
    {
        let ghost k = it.index();
        let (name, lines) = entry;
        set_raw_lines(&mut h, name, lines);
        assert(view.take(k + 1).drop_last() =~= view.take(k));
    }
    assert(view.take(view.len() as int) =~= view);
    h
}

/// Serializes a header map: the entries that `encode_headers` gives for the
/// wrapped map, in the wrapper's mode (plain or pretty).
pub fn serialize_headers(ser: &Ser<'_, Headers>) -> (out: Vec<(String, Vec<Line>)>)
    requires
        typed_fields_format(ser.value()),
    ensures
        written_view(out@) == encoded_fields(header_fields(ser.value()), ser.is_pretty()),
        decoded_fields(read_back(written_view(out@))) == header_fields(ser.value()),
{
    encode_headers(ser.get(), ser.pretty())
}

/// Deserializes a header map from the entries of a map from names to lists
/// of lines, read in order (see `decode_headers`).
pub fn deserialize_headers(entries: Vec<(String, Vec<Vec<u8>>)>) -> (res: De<Headers>)
    ensures
        header_fields(res.value()) == decoded_fields(entries_view(entries@)),
        typed_fields_format(res.value()),
{
    De::new(decode_headers(entries))
}

/// At most this many lines of one header are reserved in advance, whatever
/// length the input announces.
pub const MAX_RESERVED_LINES: usize = 64;

/// The number of lines to reserve room for when reading the lines of one
/// header: the announced number, if any, but no more than
/// `MAX_RESERVED_LINES`, so that a rogue announcement cannot exhaust memory.
pub fn lines_capacity(size_hint: Option<usize>) -> (cap: usize)
    ensures
        cap == match size_hint {
            Some(n) => if n < MAX_RESERVED_LINES { n } else { MAX_RESERVED_LINES },
            None => 0,
        },
        cap <= MAX_RESERVED_LINES,
{
    match size_hint {
        Some(n) => if n < MAX_RESERVED_LINES {
            n
        } else {
            MAX_RESERVED_LINES
        },
        None => 0,
    }
}

/// Where the first field of a name is: present whenever some field has it,
/// no later than that field, and a field of that name.
pub proof fn lemma_position_of_found(
    fields: Seq<(Seq<char>, Seq<Seq<u8>>)>,
    k: int,
    name: Seq<char>,
)
    requires
        0 <= k < fields.len(),
        same_name(fields[k].0, name),
    ensures
        0 <= position_of(fields, name) <= k,
        same_name(fields[position_of(fields, name)].0, name),
    decreases fields.len(),
{
    lemma_position_of_bounds(fields, name);
    if k < fields.len() - 1 {
        lemma_position_of_found(fields.drop_last(), k, name);
    }
}

/// `position_of` is -1 or the index of a field with that name.
pub proof fn lemma_position_of_bounds(fields: Seq<(Seq<char>, Seq<Seq<u8>>)>, name: Seq<char>)
    ensures
        -1 <= position_of(fields, name) < fields.len(),
        position_of(fields, name) >= 0 ==> same_name(fields[position_of(fields, name)].0, name),
        position_of(fields, name) < 0 ==> forall|i: int|
            0 <= i < fields.len() ==> !same_name(#[trigger] fields[i].0, name),
    decreases fields.len(),
{
    if fields.len() > 0 {
        lemma_position_of_bounds(fields.drop_last(), name);
        let p = position_of(fields.drop_last(), name);
        if p < 0 {
            assert forall|i: int| 0 <= i < fields.len() - 1 implies !same_name(
                #[trigger] fields[i].0,
                name,
            ) by {
                assert(fields.drop_last()[i] == fields[i]);
            }
        }
    }
}

/// Names that are the same as a third are the same as each other.
proof fn lemma_same_name_trans(a: Seq<char>, b: Seq<char>, c: Seq<char>)
    requires
        same_name(a, b),
        same_name(b, c),
    ensures
        same_name(a, c),
        same_name(c, a),
{
    assert forall|i: int| 0 <= i < a.len() implies #[trigger] fold_ascii(a[i]) == fold_ascii(c[i]) by {
        assert(fold_ascii(b[i]) == fold_ascii(c[i]));
    }
    assert forall|i: int| 0 <= i < c.len() implies #[trigger] fold_ascii(c[i]) == fold_ascii(a[i]) by {
        assert(fold_ascii(a[i]) == fold_ascii(b[i]));
        assert(fold_ascii(b[i]) == fold_ascii(c[i]));
    }
}

/// Names that are the same either way round.
proof fn lemma_same_name_symm(a: Seq<char>, b: Seq<char>)
    requires
        same_name(a, b),
    ensures
        same_name(b, a),
{
    assert forall|i: int| 0 <= i < b.len() implies #[trigger] fold_ascii(b[i]) == fold_ascii(a[i]) by {
        assert(fold_ascii(a[i]) == fold_ascii(b[i]));
    }
}

/// Setting the lines of a name keeps the names of a map distinct.
pub proof fn lemma_set_field_distinct(
    fields: Seq<(Seq<char>, Seq<Seq<u8>>)>,
    name: Seq<char>,
    lines: Seq<Seq<u8>>,
)
    requires
        distinct_names(fields),
    ensures
        distinct_names(set_field(fields, name, lines)),
{
    lemma_position_of_bounds(fields, name);
    let p = position_of(fields, name);
    let out = set_field(fields, name, lines);
    assert forall|i: int, j: int| 0 <= i < j < out.len() implies !same_name(
        #[trigger] out[i].0,
        #[trigger] out[j].0,
    ) by {
        if p >= 0 {
            if i == p {
                if same_name(name, fields[j].0) {
                    lemma_same_name_trans(fields[p].0, name, fields[j].0);
                }
            } else if j == p {
                if same_name(fields[i].0, name) {
                    lemma_same_name_symm(fields[p].0, name);
                    lemma_same_name_trans(fields[i].0, name, fields[p].0);
                }
            }
        } else {
            if j == fields.len() {
                assert(!same_name(fields[i].0, name));
            }
        }
    }
}

/// A map read back from entries never holds two fields of the same name.
pub proof fn lemma_decoded_names_distinct(entries: Seq<(Seq<char>, Seq<Seq<u8>>)>)
    ensures
        distinct_names(decoded_fields(entries)),
    decreases entries.len(),
{
    if entries.len() > 0 {
        lemma_decoded_names_distinct(entries.drop_last());
        let last = entries.last();
        lemma_set_field_distinct(decoded_fields(entries.drop_last()), last.0, last.1);
    }
}

/// Fields with distinct names, read back as entries, give the same fields.
pub proof fn lemma_decode_distinct_fields(fields: Seq<(Seq<char>, Seq<Seq<u8>>)>)
    requires
        distinct_names(fields),
    ensures
        decoded_fields(fields) == fields,
    decreases fields.len(),
{
    if fields.len() > 0 {
        let init = fields.drop_last();
        assert(distinct_names(init)) by {
            assert forall|i: int, j: int| 0 <= i < j < init.len() implies !same_name(
                #[trigger] init[i].0,
                #[trigger] init[j].0,
            ) by {
                assert(init[i] == fields[i] && init[j] == fields[j]);
            }
        }
        lemma_decode_distinct_fields(init);
        lemma_position_of_bounds(init, fields.last().0);
        if position_of(init, fields.last().0) >= 0 {
            let p = position_of(init, fields.last().0);
            assert(init[p] == fields[p]);
            assert(!same_name(fields[p].0, fields[fields.len() - 1].0));
        }
        assert(init.push(fields.last()) =~= fields);
    }
}

/// In a map with distinct names, a lookup of a field's name finds that
/// field.
pub proof fn lemma_lines_of_distinct(fields: Seq<(Seq<char>, Seq<Seq<u8>>)>, k: int)
    requires
        distinct_names(fields),
        0 <= k < fields.len(),
    ensures
        position_of(fields, fields[k].0) == k,
        lines_of(fields, fields[k].0) == fields[k].1,
{
    lemma_position_of_found(fields, k, fields[k].0);
    let p = position_of(fields, fields[k].0);
    if p < k {
        assert(!same_name(fields[p].0, fields[k].0));
    }
}

/// A line written, then read back, gives its bytes.
pub proof fn lemma_line_read_back(bytes: Seq<u8>, pretty: bool)
    ensures
        line_bytes(encode_line(bytes, pretty)) == bytes,
{
    if pretty && valid_utf8(bytes) {
        decode_utf8_encode_utf8(bytes);
    }
}

/// The fields of a map with distinct names, written and then read back as
/// entries, are the fields themselves.
pub proof fn lemma_read_back_encoded(fields: Seq<(Seq<char>, Seq<Seq<u8>>)>, pretty: bool)
    requires
        distinct_names(fields),
    ensures
        read_back(encoded_fields(fields, pretty)) == fields,
{
    let back = read_back(encoded_fields(fields, pretty));
    assert forall|k: int| 0 <= k < fields.len() implies #[trigger] back[k] == fields[k] by {
        lemma_lines_of_distinct(fields, k);
        let ls = fields[k].1;
        let got = back[k].1;
        assert forall|m: int| 0 <= m < ls.len() implies #[trigger] got[m] == ls[m] by {
            lemma_line_read_back(ls[m], pretty);
        }
        assert(got =~= ls);
    }
    assert(back =~= fields);
}

/// A header map whose field names are distinct is read back exactly as it
/// was written, whether it was written pretty or not: the same names, in
/// the same order, with the same lines.
pub proof fn lemma_headers_round_trip(h: Headers, pretty: bool)
    requires
        distinct_names(header_fields(h)),
    ensures
        decoded_fields(read_back(encoded_fields(header_fields(h), pretty))) == header_fields(h),
{
    lemma_read_back_encoded(header_fields(h), pretty);
    lemma_decode_distinct_fields(header_fields(h));
}

/// A header map that was read back from entries, written again and read
/// back again, is the map it was: reading is a fixed point of writing.
pub proof fn lemma_decoded_round_trip(entries: Seq<(Seq<char>, Seq<Seq<u8>>)>, pretty: bool)
    ensures
        decoded_fields(read_back(encoded_fields(decoded_fields(entries), pretty)))
            == decoded_fields(entries),
{
    lemma_decoded_names_distinct(entries);
    lemma_read_back_encoded(decoded_fields(entries), pretty);
    lemma_decode_distinct_fields(decoded_fields(entries));
}

/// Pretty and plain writing stand for the same bytes: they differ only in
/// whether a UTF-8 line is written as text or as bytes. Plain writing
/// writes every line as bytes.
pub proof fn lemma_pretty_same_bytes(fields: Seq<(Seq<char>, Seq<Seq<u8>>)>)
    ensures
        read_back(encoded_fields(fields, true)) == read_back(encoded_fields(fields, false)),
        forall|k: int, m: int|
            0 <= k < fields.len() && 0 <= m < encoded_fields(fields, false)[k].1.len()
                ==> #[trigger] encoded_fields(fields, false)[k].1[m] is Bytes,
{
    let a = read_back(encoded_fields(fields, true));
    let b = read_back(encoded_fields(fields, false));
    assert forall|k: int| 0 <= k < fields.len() implies #[trigger] a[k] == b[k] by {
        let ls = lines_of(fields, fields[k].0);
        assert forall|m: int| 0 <= m < ls.len() implies #[trigger] a[k].1[m] == b[k].1[m] by {
            lemma_line_read_back(ls[m], true);
            lemma_line_read_back(ls[m], false);
        }
        assert(a[k].1 =~= b[k].1);
    }
    assert(a =~= b);
}

/// The index of the last entry whose name is `name` (ignoring ASCII case),
/// or -1 when there is none.
pub open spec fn last_position_of(entries: Seq<(Seq<char>, Seq<Seq<u8>>)>, name: Seq<char>) -> int
    decreases entries.len(),
{
    if entries.len() == 0 {
        -1
    } else if same_name(entries.last().0, name) {
        entries.len() - 1
    } else {
        last_position_of(entries.drop_last(), name)
    }
}

/// `last_position_of` is -1 or an index of the entries.
proof fn lemma_last_position_bounds(entries: Seq<(Seq<char>, Seq<Seq<u8>>)>, name: Seq<char>)
    ensures
        -1 <= last_position_of(entries, name) < entries.len(),
    decreases entries.len(),
{
    if entries.len() > 0 {
        lemma_last_position_bounds(entries.drop_last(), name);
    }
}

/// Setting the lines of one name leaves the lookup of a different name as
/// it was.
proof fn lemma_set_field_other(
    fields: Seq<(Seq<char>, Seq<Seq<u8>>)>,
    set_name: Seq<char>,
    lines: Seq<Seq<u8>>,
    name: Seq<char>,
)
    requires
        !same_name(set_name, name),
    ensures
        position_of(set_field(fields, set_name, lines), name) >= 0 <==> position_of(fields, name)
            >= 0,
        position_of(fields, name) >= 0 ==> lines_of(set_field(fields, set_name, lines), name)
            == lines_of(fields, name),
{
    let g = set_field(fields, set_name, lines);
    let ps = position_of(fields, set_name);
    lemma_position_of_bounds(fields, set_name);
    lemma_position_of_bounds(fields, name);
    lemma_position_of_bounds(g, name);
    let p = position_of(fields, name);
    let pg = position_of(g, name);
    if ps >= 0 && same_name(fields[ps].0, name) {
        lemma_same_name_symm(fields[ps].0, set_name);
        lemma_same_name_trans(set_name, fields[ps].0, name);
    }
    if p >= 0 {
        assert(g[p] == fields[p]);
        lemma_position_of_found(g, p, name);
        if pg < p {
            if !(ps >= 0 && pg == ps) {
                assert(g[pg] == fields[pg]);
                lemma_position_of_found(fields, pg, name);
            }
        }
    } else if pg >= 0 {
        if !(pg == ps || pg == fields.len()) {
            assert(g[pg] == fields[pg]);
        }
    }
}

/// Reading entries in order, a later entry of a name wins: a lookup of a
/// name in the map read back finds the lines of the last entry of that name
/// (ignoring ASCII case), and finds nothing when no entry has that name.
pub proof fn lemma_decoded_lookup(entries: Seq<(Seq<char>, Seq<Seq<u8>>)>, name: Seq<char>)
    ensures
        last_position_of(entries, name) < 0 ==> position_of(decoded_fields(entries), name) < 0,
        last_position_of(entries, name) >= 0 ==> {
            &&& position_of(decoded_fields(entries), name) >= 0
            &&& lines_of(decoded_fields(entries), name) == entries[last_position_of(
                entries,
                name,
            )].1
        },
    decreases entries.len(),
{
    if entries.len() > 0 {
        let init = entries.drop_last();
        let last = entries.last();
        lemma_decoded_lookup(init, name);
        lemma_decoded_names_distinct(init);
        lemma_decoded_names_distinct(entries);
        let f = decoded_fields(init);
        let g = decoded_fields(entries);
        if same_name(last.0, name) {
            let ps = position_of(f, last.0);
            lemma_position_of_bounds(f, last.0);
            let idx = if ps >= 0 {
                ps
            } else {
                f.len() as int
            };
            assert(g[idx] == (last.0, last.1));
            lemma_position_of_found(g, idx, name);
            let pg = position_of(g, name);
            if pg < idx {
                lemma_same_name_symm(last.0, name);
                lemma_same_name_trans(g[pg].0, name, last.0);
            }
        } else {
            lemma_set_field_other(f, last.0, last.1, name);
            lemma_last_position_bounds(init, name);
            if last_position_of(init, name) >= 0 {
                assert(init[last_position_of(init, name)] == entries[last_position_of(
                    entries,
                    name,
                )]);
            }
        }
    }
}

/// A line is written as text, the characters its bytes encode, exactly when
/// pretty output is asked for and the bytes are valid UTF-8 (ASCII or not);
/// otherwise it is written as its bytes.
pub proof fn lemma_encode_line_cases(bytes: Seq<u8>, pretty: bool)
    ensures
        pretty && valid_utf8(bytes) ==> encode_line(bytes, pretty) == LineView::Text(
            decode_utf8(bytes),
        ),
        !(pretty && valid_utf8(bytes)) ==> encode_line(bytes, pretty) == LineView::Bytes(bytes),
{
}

/// Writing a header map treats every field alike, whatever its position:
/// entry `k` has the name of field `k` and one written line per line of that
/// name; line `m` is the text its bytes encode when pretty output is asked
/// for and the bytes are valid UTF-8, and the bytes themselves otherwise.
pub proof fn lemma_encoded_field_lines(
    fields: Seq<(Seq<char>, Seq<Seq<u8>>)>,
    pretty: bool,
    k: int,
    m: int,
)
    requires
        0 <= k < fields.len(),
        0 <= m < lines_of(fields, fields[k].0).len(),
    ensures
        encoded_fields(fields, pretty).len() == fields.len(),
        encoded_fields(fields, pretty)[k].0 == fields[k].0,
        encoded_fields(fields, pretty)[k].1.len() == lines_of(fields, fields[k].0).len(),
        pretty && valid_utf8(lines_of(fields, fields[k].0)[m]) ==> encoded_fields(
            fields,
            pretty,
        )[k].1[m] == LineView::Text(decode_utf8(lines_of(fields, fields[k].0)[m])),
        !(pretty && valid_utf8(lines_of(fields, fields[k].0)[m])) ==> encoded_fields(
            fields,
            pretty,
        )[k].1[m] == LineView::Bytes(lines_of(fields, fields[k].0)[m]),
{
}

} // verus!
