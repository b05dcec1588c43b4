//! The field dictionary: FIX tag definitions (number, name, data type, enum
//! table) built from the events of a schema document. The byte-stream reading
//! itself stays outside the library; this module receives the tag structure
//! of the document as plain events and builds the four lookup tables.
use vstd::prelude::*;

verus! {

use crate::strmap::StrMap;
use crate::strmap::map_find;
use crate::strmap::spec_map_insert;
use crate::intmap::IntMap;
use crate::intmap::int_find;
use crate::intmap::spec_int_insert;
use crate::numbers::spec_parse_u64;
use crate::numbers::parse_u64;
use crate::strings::str_eq;
use crate::strings::str_to_chars;

/// Data type of a FIX field, from the schema's type attribute.
#[derive(Clone, Copy, PartialEq, Eq, Structural, Debug)]
pub enum DataType {
    String,
    Int,
    Float,
    Char,
    Bool,
}

/// Errors of dictionary loading and message decoding.
#[derive(Debug, Clone)]
pub enum FixError {
    XmlError(String),
    IoError(String),
    ParseError(String),
}

/// A tag definition as the contracts see it.
pub ghost struct TagView {
    pub number: Seq<char>,
    pub name: Seq<char>,
    pub data_type: DataType,
    pub enum_values: Option<Seq<(Seq<char>, Seq<char>)>>,
}

/// One FIX tag definition: its wire number, its name, its data type, and
/// (once the schema element is closed) its enum table.
#[derive(Debug)]
pub struct FixTag {
    pub number: String,
    pub name: String,
    pub data_type: DataType,
    pub enum_values: Option<StrMap<String>>,
}

impl View for FixTag {
    type V = TagView;

    open spec fn view(&self) -> TagView {
        TagView {
            number: self.number@,
            name: self.name@,
            data_type: self.data_type,
            enum_values: match self.enum_values {
                Some(m) => Some(m@),
                None => None,
            },
        }
    }
}

impl FixTag {
    pub fn new(
        number: String,
        name: String,
        data_type: DataType,
        enum_values: Option<StrMap<String>>,
    ) -> (r: Self)
        ensures
            r@ == (TagView {
                number: number@,
                name: name@,
                data_type: data_type,
                enum_values: match enum_values {
                    Some(m) => Some(m@),
                    None => None::<Seq<(Seq<char>, Seq<char>)>>,
                },
            }),
    {
        Self { number, name, data_type, enum_values }
    }

    pub fn data_type(&self) -> (r: &DataType)
        ensures
            *r == self@.data_type,
    {
        &self.data_type
    }
}

/// One element of a schema document: an opening tag, a self-closed tag, or a
/// closing tag, with its attributes. An attribute value of `None` records
/// bytes that were not valid text.
pub enum XmlEvent {
    Open { name: String, attrs: Vec<(String, Option<String>)> },
    Closed { name: String, attrs: Vec<(String, Option<String>)> },
    Close { name: String },
}

/// Attribute pairs at the view level.
pub open spec fn attrs_view(s: Seq<(String, Option<String>)>) -> Seq<
    (Seq<char>, Option<Seq<char>>),
> {
    s.map_values(
        |e: (String, Option<String>)|
            (
                e.0@,
                match e.1 {
                    Some(v) => Some(v@),
                    None => None::<Seq<char>>,
                },
            ),
    )
}

/// The value of the last attribute named `k`, if any.
pub open spec fn attr_find(s: Seq<(Seq<char>, Option<Seq<char>>)>, k: Seq<char>) -> Option<
    Option<Seq<char>>,
>
    decreases s.len(),
{
    if s.len() == 0 {
        None
    } else if s.last().0 == k {
        Some(s.last().1)
    } else {
        attr_find(s.drop_last(), k)
    }
}

/// View of a possibly missing, possibly undecodable attribute value.
pub open spec fn opt2_view(o: Option<Option<String>>) -> Option<Option<Seq<char>>> {
    match o {
        Some(Some(v)) => Some(Some(v@)),
        Some(None) => Some(None),
        None => None,
    }
}

/// The last attribute named `name`, as the schema readers use it.
pub fn find_attr(attrs: &Vec<(String, Option<String>)>, name: &str) -> (r: Option<Option<String>>)
    ensures
        opt2_view(r) == attr_find(attrs_view(attrs@), name@),
{
    let ghost s = attrs_view(attrs@);
    proof {
        assert(s.subrange(0, s.len() as int) == s);
    }
    let mut i: usize = attrs.len();
    while i > 0
        invariant
            0 <= i <= attrs.len(),
            s == attrs_view(attrs@),
            attr_find(s, name@) == attr_find(s.subrange(0, i as int), name@),
        decreases i,
    {
        proof {
            let pre = s.subrange(0, i as int);
            assert(pre.last() == s[i - 1]);
            assert(pre.drop_last() =~= s.subrange(0, i - 1));
        }
        i = i - 1;
        if str_eq(attrs[i].0.as_str(), name) {
            let r = match &attrs[i].1 {
                Some(v) => Some(Some(v.clone())),
                None => Some(None),
            };
            return r;
        }
    }
    proof {
        assert(s.subrange(0, 0) =~= Seq::<(Seq<char>, Option<Seq<char>>)>::empty());
    }
    None
}

/// The data type a schema type name stands for, if it is known.
pub open spec fn spec_data_type(ts: Seq<char>) -> Option<DataType> {
    if ts == "STRING"@ || ts == "MULTIPLEVALUESTRING"@ || ts == "CURRENCY"@ || ts == "EXCHANGE"@
        || ts == "UTCTIMESTAMP"@ || ts == "LOCALMKTDATE"@ || ts == "DATA"@ || ts == "UTCDATE"@
        || ts == "UTCTIMEONLY"@ {
        Some(DataType::String)
    } else if ts == "INT"@ || ts == "PRICE"@ || ts == "AMT"@ || ts == "QTY"@ || ts == "LENGTH"@
        || ts == "PRICEOFFSET"@ || ts == "MONTHYEAR"@ || ts == "DAYOFMONTH"@ {
        Some(DataType::Int)
    } else if ts == "FLOAT"@ {
        Some(DataType::Float)
    } else if ts == "CHAR"@ {
        Some(DataType::Char)
    } else if ts == "BOOLEAN"@ {
        Some(DataType::Bool)
    } else {
        None
    }
}

pub fn data_type_of(ts: &str) -> (r: Option<DataType>)
    ensures
        r == spec_data_type(ts@),
{
    if str_eq(ts, "STRING") || str_eq(ts, "MULTIPLEVALUESTRING") || str_eq(ts, "CURRENCY")
        || str_eq(ts, "EXCHANGE") || str_eq(ts, "UTCTIMESTAMP") || str_eq(ts, "LOCALMKTDATE")
        || str_eq(ts, "DATA") || str_eq(ts, "UTCDATE") || str_eq(ts, "UTCTIMEONLY") {
        Some(DataType::String)
    } else if str_eq(ts, "INT") || str_eq(ts, "PRICE") || str_eq(ts, "AMT") || str_eq(ts, "QTY")
        || str_eq(ts, "LENGTH") || str_eq(ts, "PRICEOFFSET") || str_eq(ts, "MONTHYEAR") || str_eq(
        ts,
        "DAYOFMONTH",
    ) {
        Some(DataType::Int)
    } else if str_eq(ts, "FLOAT") {
        Some(DataType::Float)
    } else if str_eq(ts, "CHAR") {
        Some(DataType::Char)
    } else if str_eq(ts, "BOOLEAN") {
        Some(DataType::Bool)
    } else {
        None
    }
}

/// What reading a field definition element yields: its number, name and data
/// type, or the text of the parse error.
pub open spec fn spec_parse_field_def(a: Seq<(Seq<char>, Option<Seq<char>>)>) -> Result<
    (Seq<char>, Seq<char>, DataType),
    Seq<char>,
> {
    let num = attr_find(a, "number"@);
    let nm = attr_find(a, "name"@);
    let ty = attr_find(a, "type"@);
    if ty is Some {
        if ty->0 is None {
            Err("Error parsing UTF-8 string"@)
        } else {
            match spec_data_type(ty->0->0) {
                None => Err("Unknown data type: "@ + ty->0->0),
                Some(dt) => {
                    if num is Some && nm is Some {
                        if num->0 is Some && nm->0 is Some {
                            Ok((num->0->0, nm->0->0, dt))
                        } else {
                            Err("Error parsing UTF-8 string"@)
                        }
                    } else {
                        Err("Incomplete field attributes"@)
                    }
                },
            }
        }
    } else {
        Err("Incomplete field attributes"@)
    }
}

/// Reads the attributes of a field definition element.
pub fn parse_field_number(attrs: &Vec<(String, Option<String>)>) -> (r: Result<
    (String, String, DataType),
    FixError,
>)
    ensures
        match r {
            Ok(t) => spec_parse_field_def(attrs_view(attrs@)) == Ok::<_, Seq<char>>(
                (t.0@, t.1@, t.2),
            ),
            Err(e) => e matches FixError::ParseError(m) && spec_parse_field_def(attrs_view(attrs@))
                == Err::<(Seq<char>, Seq<char>, DataType), _>(m@),
        },
{
    let num = find_attr(attrs, "number");
    let nm = find_attr(attrs, "name");
    let ty = find_attr(attrs, "type");
    match ty {
        Some(tv) => match tv {
            None => Err(FixError::ParseError(String::from_str("Error parsing UTF-8 string"))),
            Some(ts) => match data_type_of(ts.as_str()) {
                None => Err(
                    FixError::ParseError(
                        String::from_str("Unknown data type: ").concat(ts.as_str()),
                    ),
                ),
                Some(dt) => match (num, nm) {
                    (Some(no), Some(na)) => match (no, na) {
                        (Some(no), Some(na)) => Ok((no, na, dt)),
                        _ => Err(
                            FixError::ParseError(String::from_str("Error parsing UTF-8 string")),
                        ),
                    },
                    _ => Err(
                        FixError::ParseError(String::from_str("Incomplete field attributes")),
                    ),
                },
            },
        },
        None => Err(FixError::ParseError(String::from_str("Incomplete field attributes"))),
    }
}

/// What reading an enum value element yields: the code and its description,
/// or the text of the parse error.
pub open spec fn spec_parse_value_enum(a: Seq<(Seq<char>, Option<Seq<char>>)>) -> Result<
    (Seq<char>, Seq<char>),
    Seq<char>,
> {
    let en = attr_find(a, "enum"@);
    let de = attr_find(a, "description"@);
    if en is Some && en->0 is None || de is Some && de->0 is None {
        Err("Error parsing UTF-8 string"@)
    } else if en is Some && de is Some {
        Ok((en->0->0, de->0->0))
    } else {
        Err("Incomplete enum attributes"@)
    }
}

/// Reads the attributes of an enum value element.
pub fn parse_value_enum(attrs: &Vec<(String, Option<String>)>) -> (r: Result<
    (String, String),
    FixError,
>)
    ensures
        match r {
            Ok(t) => spec_parse_value_enum(attrs_view(attrs@)) == Ok::<_, Seq<char>>((t.0@, t.1@)),
            Err(e) => e matches FixError::ParseError(m) && spec_parse_value_enum(
                attrs_view(attrs@),
            ) == Err::<(Seq<char>, Seq<char>), _>(m@),
        },
{
    let en = find_attr(attrs, "enum");
    let de = find_attr(attrs, "description");
    let en_bad = match &en {
        Some(v) => v.is_none(),
        None => false,
    };
    let de_bad = match &de {
        Some(v) => v.is_none(),
        None => false,
    };
    if en_bad || de_bad {
        return Err(FixError::ParseError(String::from_str("Error parsing UTF-8 string")));
    }
    match (en, de) {
        (Some(Some(e)), Some(Some(d))) => Ok((e, d)),
        _ => Err(FixError::ParseError(String::from_str("Incomplete enum attributes"))),
    }
}

/// The state of the dictionary builder while it walks the schema events.
pub ghost struct DictState {
    pub tags_by_number: Seq<(u64, TagView)>,
    pub tags_by_name: Seq<(Seq<char>, TagView)>,
    pub types_by_code: Seq<(Seq<char>, Seq<char>)>,
    pub names_to_code: Seq<(Seq<char>, Seq<char>)>,
    pub cur_number: Seq<char>,
    pub cur_no: u64,
    pub cur_name: Seq<char>,
    pub cur_enum_codes: Seq<(Seq<char>, Seq<char>)>,
    pub cur_enum_descs: Seq<(Seq<char>, Seq<char>)>,
}

pub open spec fn dict_init() -> DictState {
    DictState {
        tags_by_number: Seq::empty(),
        tags_by_name: Seq::empty(),
        types_by_code: Seq::empty(),
        names_to_code: Seq::empty(),
        cur_number: "0"@,
        cur_no: 0,
        cur_name: "_"@,
        cur_enum_codes: Seq::empty(),
        cur_enum_descs: Seq::empty(),
    }
}

/// A field definition element: the tag goes into both indices; an opening
/// element also becomes the current field, so that enum values attach to it.
pub open spec fn dict_field_def(
    st: DictState,
    a: Seq<(Seq<char>, Option<Seq<char>>)>,
    set_current: bool,
) -> Result<DictState, Seq<char>> {
    match spec_parse_field_def(a) {
        Err(m) => Err(m),
        Ok((num, name, dt)) => match spec_parse_u64(num) {
            None => Err("Error parsing tag number"@),
            Some(v) => if v <= u32::MAX as u64 {
                let tag = TagView { number: num, name: name, data_type: dt, enum_values: None };
                Ok(
                    DictState {
                        tags_by_number: spec_int_insert(st.tags_by_number, v, tag),
                        tags_by_name: spec_map_insert(st.tags_by_name, name, tag),
                        cur_number: if set_current {
                            num
                        } else {
                            st.cur_number
                        },
                        cur_no: if set_current {
                            v
                        } else {
                            st.cur_no
                        },
                        cur_name: if set_current {
                            name
                        } else {
                            st.cur_name
                        },
                        ..st
                    },
                )
            } else {
                Err("Error parsing tag number"@)
            },
        },
    }
}

/// The end of a field definition element: the collected enum tables attach
/// to the current field in both indices, and the current field resets.
pub open spec fn dict_close_field(st: DictState) -> DictState {
    let i = int_find(st.tags_by_number, st.cur_no);
    let tbn = if i >= 0 {
        st.tags_by_number.update(
            i,
            (
                st.cur_no,
                TagView { enum_values: Some(st.cur_enum_codes), ..st.tags_by_number[i].1 },
            ),
        )
    } else {
        st.tags_by_number
    };
    let j = map_find(st.tags_by_name, st.cur_name);
    let tbnm = if j >= 0 {
        st.tags_by_name.update(
            j,
            (
                st.cur_name,
                TagView { enum_values: Some(st.cur_enum_descs), ..st.tags_by_name[j].1 },
            ),
        )
    } else {
        st.tags_by_name
    };
    DictState {
        tags_by_number: tbn,
        tags_by_name: tbnm,
        cur_number: "0"@,
        cur_no: 0,
        cur_name: "_"@,
        cur_enum_codes: Seq::empty(),
        cur_enum_descs: Seq::empty(),
        ..st
    }
}

/// One schema event applied to the builder state.
pub open spec fn dict_step(st: DictState, ev: XmlEvent) -> Result<DictState, Seq<char>> {
    match ev {
        XmlEvent::Closed { name, attrs } => {
            if name@ == "field"@ {
                dict_field_def(st, attrs_view(attrs@), false)
            } else if name@ == "value"@ {
                match spec_parse_value_enum(attrs_view(attrs@)) {
                    Err(m) => Err(m),
                    Ok((code, desc)) => Ok(
                        DictState {
                            cur_enum_codes: spec_map_insert(st.cur_enum_codes, code, desc),
                            cur_enum_descs: spec_map_insert(st.cur_enum_descs, desc, code),
                            types_by_code: if st.cur_number == "35"@ {
                                spec_map_insert(st.types_by_code, code, desc)
                            } else {
                                st.types_by_code
                            },
                            names_to_code: if st.cur_number == "35"@ {
                                spec_map_insert(st.names_to_code, desc, code)
                            } else {
                                st.names_to_code
                            },
                            ..st
                        },
                    ),
                }
            } else {
                Ok(st)
            }
        },
        XmlEvent::Open { name, attrs } => {
            if name@ == "field"@ {
                dict_field_def(st, attrs_view(attrs@), true)
            } else {
                Ok(st)
            }
        },
        XmlEvent::Close { name } => {
            if name@ == "field"@ {
                Ok(dict_close_field(st))
            } else {
                Ok(st)
            }
        },
    }
}

/// All events applied in order, stopping at the first error.
pub open spec fn dict_fold(evs: Seq<XmlEvent>, st: DictState) -> Result<DictState, Seq<char>>
    decreases evs.len(),
{
    if evs.len() == 0 {
        Ok(st)
    } else {
        match dict_step(st, evs[0]) {
            Err(m) => Err(m),
            Ok(st2) => dict_fold(evs.drop_first(), st2),
        }
    }
}

/// Builds the field dictionary from the events of a schema document: the tag
/// definitions indexed by number and by name, and the message-type enum of
/// tag 35 indexed by code and by name.
pub fn parse_fix_xml(events: &Vec<XmlEvent>) -> (r: Result<
    (IntMap<FixTag>, StrMap<FixTag>, StrMap<String>, StrMap<String>),
    FixError,
>)
    ensures
        match r {
            Ok(t) => dict_fold(events@, dict_init()) matches Ok(st) && t.0@ == st.tags_by_number
                && t.1@ == st.tags_by_name && t.2@ == st.types_by_code && t.3@ == st.names_to_code,
            Err(e) => e matches FixError::ParseError(m) && dict_fold(events@, dict_init())
                == Err::<DictState, Seq<char>>(m@),
        },
{
    let mut tags_no: IntMap<FixTag> = IntMap::new();
    let mut tags_name: StrMap<FixTag> = StrMap::new();
    let mut types_by_code: StrMap<String> = StrMap::new();
    let mut names_to_code: StrMap<String> = StrMap::new();
    let mut cur_number: String = String::from_str("0");
    let mut cur_no: u64 = 0;
    let mut cur_name: String = String::from_str("_");
    let mut enum_codes: StrMap<String> = StrMap::new();
    let mut enum_descs: StrMap<String> = StrMap::new();
    let ghost init = dict_init();
    proof {
        assert(events@.subrange(0, events@.len() as int) == events@);
    }
    let mut i: usize = 0;
    while i < events.len()
        invariant
            0 <= i <= events.len(),
            dict_fold(
                events@.subrange(i as int, events@.len() as int),
                DictState {
                    tags_by_number: tags_no@,
                    tags_by_name: tags_name@,
                    types_by_code: types_by_code@,
                    names_to_code: names_to_code@,
                    cur_number: cur_number@,
                    cur_no: cur_no,
                    cur_name: cur_name@,
                    cur_enum_codes: enum_codes@,
                    cur_enum_descs: enum_descs@,
                },
            ) == dict_fold(events@, dict_init()),
        decreases events.len() - i,
    {
        let ghost st_pre = DictState {
            tags_by_number: tags_no@,
            tags_by_name: tags_name@,
            types_by_code: types_by_code@,
            names_to_code: names_to_code@,
            cur_number: cur_number@,
            cur_no: cur_no,
            cur_name: cur_name@,
            cur_enum_codes: enum_codes@,
            cur_enum_descs: enum_descs@,
        };
        let ghost rest = events@.subrange(i as int, events@.len() as int);
        proof {
            assert(rest[0] == events@[i as int]);
            assert(rest.drop_first() == events@.subrange(i + 1, events@.len() as int));
        }
        let ev = &events[i];
        match ev {
            XmlEvent::Closed { name, attrs } => {
                if str_eq(name.as_str(), "field") {
                    match parse_field_number(attrs) {
                        Err(e) => {
                            return Err(e);
                        },
                        Ok((no_s, na_s, dt)) => {
                            let no_chars = str_to_chars(no_s.as_str());
                            match parse_u64(&no_chars) {
                                Some(v) if v <= 0xFFFF_FFFFu64 => {
                                    tags_no.insert(
                                        v,
                                        FixTag::new(no_s.clone(), na_s.clone(), dt, None),
                                    );
                                    tags_name.insert(
                                        na_s.clone(),
                                        FixTag::new(no_s, na_s, dt, None),
                                    );
                                },
                                _ => {
                                    return Err(
                                        FixError::ParseError(
                                            String::from_str("Error parsing tag number"),
                                        ),
                                    );
                                },
                            }
                        },
                    }
                } else if str_eq(name.as_str(), "value") {
                    match parse_value_enum(attrs) {
                        Err(e) => {
                            return Err(e);
                        },
                        Ok((code, desc)) => {
                            enum_codes.insert(code.clone(), desc.clone());
                            enum_descs.insert(desc.clone(), code.clone());
                            if str_eq(cur_number.as_str(), "35") {
                                types_by_code.insert(code.clone(), desc.clone());
                                names_to_code.insert(desc, code);
                            }
                        },
                    }
                }
            },
            XmlEvent::Open { name, attrs } => {
                if str_eq(name.as_str(), "field") {
                    match parse_field_number(attrs) {
                        Err(e) => {
                            return Err(e);
                        },
                        Ok((no_s, na_s, dt)) => {
                            let no_chars = str_to_chars(no_s.as_str());
                            match parse_u64(&no_chars) {
                                Some(v) if v <= 0xFFFF_FFFFu64 => {
                                    tags_no.insert(
                                        v,
                                        FixTag::new(no_s.clone(), na_s.clone(), dt, None),
                                    );
                                    tags_name.insert(
                                        na_s.clone(),
                                        FixTag::new(no_s.clone(), na_s.clone(), dt, None),
                                    );
                                    cur_number = no_s;
                                    cur_no = v;
                                    cur_name = na_s;
                                },
                                _ => {
                                    return Err(
                                        FixError::ParseError(
                                            String::from_str("Error parsing tag number"),
                                        ),
                                    );
                                },
                            }
                        },
                    }
                }
            },
            XmlEvent::Close { name } => {
                if str_eq(name.as_str(), "field") {
                    proof {
                        crate::intmap::lemma_int_find(tags_no@, cur_no);
                        crate::strmap::lemma_map_find(tags_name@, cur_name@);
                    }
                    match tags_no.index_of(cur_no) {
                        Some(idx) => {
                            let newtag = {
                                let oldt = tags_no.value_at(idx);
                                FixTag {
                                    number: oldt.number.clone(),
                                    name: oldt.name.clone(),
                                    data_type: oldt.data_type,
                                    enum_values: Some(enum_codes.clone_map()),
                                }
                            };
                            tags_no.set_value_at(idx, newtag);
                        },
                        None => {},
                    }
                    match tags_name.index_of(cur_name.as_str()) {
                        Some(idx) => {
                            let newtag = {
                                let oldt = tags_name.value_at(idx);
                                FixTag {
                                    number: oldt.number.clone(),
                                    name: oldt.name.clone(),
                                    data_type: oldt.data_type,
                                    enum_values: Some(enum_descs.clone_map()),
                                }
                            };
                            tags_name.set_value_at(idx, newtag);
                        },
                        None => {},
                    }
                    cur_number = String::from_str("0");
                    cur_no = 0;
                    cur_name = String::from_str("_");
                    enum_codes = StrMap::new();
                    enum_descs = StrMap::new();
                }
            },
        }
        proof {
            let st_next = DictState {
                tags_by_number: tags_no@,
                tags_by_name: tags_name@,
                types_by_code: types_by_code@,
                names_to_code: names_to_code@,
                cur_number: cur_number@,
                cur_no: cur_no,
                cur_name: cur_name@,
                cur_enum_codes: enum_codes@,
                cur_enum_descs: enum_descs@,
            };
            assert(dict_step(st_pre, events@[i as int]) == Ok::<DictState, Seq<char>>(st_next));
        }
        i = i + 1;
    }
    proof {
        assert(events@.subrange(i as int, events@.len() as int).len() == 0);
    }
    Ok((tags_no, tags_name, types_by_code, names_to_code))
}

} // verus!
