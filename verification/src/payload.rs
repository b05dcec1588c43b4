//! The message dictionary: which fields each message type requires, built
//! from the events of a payload schema document, with synthetic entries for
//! the header (keyed `<`) and trailer (keyed `>`).
use vstd::prelude::*;

verus! {

use crate::strmap::StrMap;
use crate::strmap::map_find;
use crate::strmap::spec_map_insert;
use crate::strmap::spec_map_get;
use crate::dictionary::FixError;
use crate::dictionary::FixTag;
use crate::dictionary::TagView;
use crate::dictionary::XmlEvent;
use crate::dictionary::attrs_view;
use crate::dictionary::attr_find;
use crate::dictionary::find_attr;
use crate::strings::str_eq;

/// A message definition as the contracts see it.
pub ghost struct MsgTagView {
    pub msgcat: Seq<char>,
    pub msgname: Seq<char>,
    pub field: Option<Seq<(Seq<char>, Seq<char>)>>,
}

/// One message definition: its category (admin, app, header, trailer), its
/// name, and (once its element is closed) the required fields, mapped to
/// the marker `Y`.
#[derive(Debug)]
pub struct FixMsgTag {
    pub msgcat: String,
    pub msgname: String,
    pub field: Option<StrMap<String>>,
}

impl View for FixMsgTag {
    type V = MsgTagView;

    open spec fn view(&self) -> MsgTagView {
        MsgTagView {
            msgcat: self.msgcat@,
            msgname: self.msgname@,
            field: match self.field {
                Some(m) => Some(m@),
                None => None,
            },
        }
    }
}

/// What reading a message element yields: its name, type code and category,
/// or the text of the parse error.
pub open spec fn spec_parse_message(a: Seq<(Seq<char>, Option<Seq<char>>)>) -> Result<
    (Seq<char>, Seq<char>, Seq<char>),
    Seq<char>,
> {
    let nm = attr_find(a, "name"@);
    let ty = attr_find(a, "msgtype"@);
    let cat = attr_find(a, "msgcat"@);
    if nm is Some && nm->0 is None || ty is Some && ty->0 is None || cat is Some && cat->0
        is None {
        Err("Error parsing UTF-8 string"@)
    } else if nm is Some && ty is Some && cat is Some {
        Ok((nm->0->0, ty->0->0, cat->0->0))
    } else {
        Err("Incomplete message attributes"@)
    }
}

/// Reads the attributes of a message element.
pub fn parse_message(attrs: &Vec<(String, Option<String>)>) -> (r: Result<
    (String, String, String),
    FixError,
>)
    ensures
        match r {
            Ok(t) => spec_parse_message(attrs_view(attrs@)) == Ok::<_, Seq<char>>(
                (t.0@, t.1@, t.2@),
            ),
            Err(e) => e matches FixError::ParseError(m) && spec_parse_message(attrs_view(attrs@))
                == Err::<(Seq<char>, Seq<char>, Seq<char>), _>(m@),
        },
{
    let nm = find_attr(attrs, "name");
    let ty = find_attr(attrs, "msgtype");
    let cat = find_attr(attrs, "msgcat");
    let nm_bad = match &nm {
        Some(v) => v.is_none(),
        None => false,
    };
    let ty_bad = match &ty {
        Some(v) => v.is_none(),
        None => false,
    };
    let cat_bad = match &cat {
        Some(v) => v.is_none(),
        None => false,
    };
    if nm_bad || ty_bad || cat_bad {
        return Err(FixError::ParseError(String::from_str("Error parsing UTF-8 string")));
    }
    match (nm, ty, cat) {
        (Some(Some(n)), Some(Some(t)), Some(Some(c))) => Ok((n, t, c)),
        _ => Err(FixError::ParseError(String::from_str("Incomplete message attributes"))),
    }
}

/// What reading a field element of a message yields: its name and its
/// required flag, or the text of the parse error.
pub open spec fn spec_parse_field(a: Seq<(Seq<char>, Option<Seq<char>>)>) -> Result<
    (Seq<char>, Seq<char>),
    Seq<char>,
> {
    let nm = attr_find(a, "name"@);
    let rq = attr_find(a, "required"@);
    if nm is Some && nm->0 is None || rq is Some && rq->0 is None {
        Err("Error parsing UTF-8 string"@)
    } else if nm is Some && rq is Some {
        Ok((nm->0->0, rq->0->0))
    } else {
        Err("Incomplete field attributes"@)
    }
}

/// Reads the attributes of a field element of a message.
pub fn parse_field(attrs: &Vec<(String, Option<String>)>) -> (r: Result<(String, String), FixError>)
    ensures
        match r {
            Ok(t) => spec_parse_field(attrs_view(attrs@)) == Ok::<_, Seq<char>>((t.0@, t.1@)),
            Err(e) => e matches FixError::ParseError(m) && spec_parse_field(attrs_view(attrs@))
                == Err::<(Seq<char>, Seq<char>), _>(m@),
        },
{
    let nm = find_attr(attrs, "name");
    let rq = find_attr(attrs, "required");
    let nm_bad = match &nm {
        Some(v) => v.is_none(),
        None => false,
    };
    let rq_bad = match &rq {
        Some(v) => v.is_none(),
        None => false,
    };
    if nm_bad || rq_bad {
        return Err(FixError::ParseError(String::from_str("Error parsing UTF-8 string")));
    }
    match (nm, rq) {
        (Some(Some(n)), Some(Some(q))) => Ok((n, q)),
        _ => Err(FixError::ParseError(String::from_str("Incomplete field attributes"))),
    }
}

/// Registers a synthetic message entry (header or trailer) in both indices
/// and makes it the current message.
pub fn handle_special_tag(
    msg_name: String,
    msg_type: String,
    msg_cat: String,
    fixname_map: &mut StrMap<FixMsgTag>,
    fixnumber_map: &mut StrMap<FixMsgTag>,
    current_msg_name: &mut String,
    current_msg_type: &mut String,
)
    ensures
        final(fixname_map)@ == spec_map_insert(
            old(fixname_map)@,
            msg_name@,
            MsgTagView { msgcat: msg_cat@, msgname: msg_name@, field: None },
        ),
        final(fixnumber_map)@ == spec_map_insert(
            old(fixnumber_map)@,
            msg_type@,
            MsgTagView { msgcat: msg_cat@, msgname: msg_name@, field: None },
        ),
        final(current_msg_name)@ == msg_name@,
        final(current_msg_type)@ == msg_type@,
{
    let tag = FixMsgTag { msgcat: msg_cat.clone(), msgname: msg_name.clone(), field: None };
    let tag2 = FixMsgTag { msgcat: msg_cat, msgname: msg_name.clone(), field: None };
    fixname_map.insert(msg_name.clone(), tag);
    fixnumber_map.insert(msg_type.clone(), tag2);
    *current_msg_name = msg_name;
    *current_msg_type = msg_type;
}

/// The state of the message-dictionary builder while it walks the events.
pub ghost struct PayloadState {
    pub by_name: Seq<(Seq<char>, MsgTagView)>,
    pub by_code: Seq<(Seq<char>, MsgTagView)>,
    pub cur_name: Seq<char>,
    pub cur_code: Seq<char>,
    pub cur_fields_by_name: Seq<(Seq<char>, Seq<char>)>,
    pub cur_fields_by_tag: Seq<(Seq<char>, Seq<char>)>,
}

pub open spec fn payload_init() -> PayloadState {
    PayloadState {
        by_name: Seq::empty(),
        by_code: Seq::empty(),
        cur_name: Seq::empty(),
        cur_code: Seq::empty(),
        cur_fields_by_name: Seq::empty(),
        cur_fields_by_tag: Seq::empty(),
    }
}

/// One payload schema event applied to the builder state, given the
/// message-type enum (code to name) and the tag index by name.
pub open spec fn payload_step(
    st: PayloadState,
    ev: XmlEvent,
    types_by_code: Seq<(Seq<char>, Seq<char>)>,
    tags_by_name: Seq<(Seq<char>, TagView)>,
) -> Result<PayloadState, Seq<char>> {
    match ev {
        XmlEvent::Closed { name, attrs } => {
            if name@ == "field"@ {
                match spec_parse_field(attrs_view(attrs@)) {
                    Err(m) => Err(m),
                    Ok((fname, req)) => {
                        if req == "Y"@ {
                            Ok(
                                PayloadState {
                                    cur_fields_by_name: spec_map_insert(
                                        st.cur_fields_by_name,
                                        fname,
                                        req,
                                    ),
                                    cur_fields_by_tag: match spec_map_get(tags_by_name, fname) {
                                        Some(tag) => spec_map_insert(
                                            st.cur_fields_by_tag,
                                            tag.number,
                                            req,
                                        ),
                                        None => spec_map_insert(st.cur_fields_by_tag, fname, req),
                                    },
                                    ..st
                                },
                            )
                        } else {
                            Ok(st)
                        }
                    },
                }
            } else {
                Ok(st)
            }
        },
        XmlEvent::Open { name, attrs } => {
            if name@ == "message"@ {
                match spec_parse_message(attrs_view(attrs@)) {
                    Err(m) => Err(m),
                    Ok((_mname, mtype, mcat)) => match spec_map_get(types_by_code, mtype) {
                        Some(mapped) => {
                            let tag = MsgTagView { msgcat: mcat, msgname: mapped, field: None };
                            Ok(
                                PayloadState {
                                    by_name: spec_map_insert(st.by_name, mapped, tag),
                                    by_code: spec_map_insert(st.by_code, mtype, tag),
                                    cur_name: mapped,
                                    cur_code: mtype,
                                    ..st
                                },
                            )
                        },
                        None => Ok(st),
                    },
                }
            } else if name@ == "header"@ {
                let tag = MsgTagView { msgcat: "header"@, msgname: "HEADER"@, field: None };
                Ok(
                    PayloadState {
                        by_name: spec_map_insert(st.by_name, "HEADER"@, tag),
                        by_code: spec_map_insert(st.by_code, "<"@, tag),
                        cur_name: "HEADER"@,
                        cur_code: "<"@,
                        ..st
                    },
                )
            } else if name@ == "trailer"@ {
                let tag = MsgTagView { msgcat: "trailer"@, msgname: "TRAILER"@, field: None };
                Ok(
                    PayloadState {
                        by_name: spec_map_insert(st.by_name, "TRAILER"@, tag),
                        by_code: spec_map_insert(st.by_code, ">"@, tag),
                        cur_name: "TRAILER"@,
                        cur_code: ">"@,
                        ..st
                    },
                )
            } else {
                Ok(st)
            }
        },
        XmlEvent::Close { name } => {
            if name@ == "message"@ || name@ == "header"@ || name@ == "trailer"@ {
                let i = map_find(st.by_name, st.cur_name);
                let by_name = if i >= 0 {
                    st.by_name.update(
                        i,
                        (
                            st.cur_name,
                            MsgTagView {
                                field: Some(st.cur_fields_by_name),
                                ..st.by_name[i].1
                            },
                        ),
                    )
                } else {
                    st.by_name
                };
                let j = map_find(st.by_code, st.cur_code);
                let by_code = if j >= 0 {
                    st.by_code.update(
                        j,
                        (
                            st.cur_code,
                            MsgTagView { field: Some(st.cur_fields_by_tag), ..st.by_code[j].1 },
                        ),
                    )
                } else {
                    st.by_code
                };
                Ok(
                    PayloadState {
                        by_name,
                        by_code,
                        cur_name: Seq::empty(),
                        cur_code: Seq::empty(),
                        cur_fields_by_name: Seq::empty(),
                        cur_fields_by_tag: Seq::empty(),
                    },
                )
            } else {
                Ok(st)
            }
        },
    }
}

/// All events applied in order, stopping at the first error.
pub open spec fn payload_fold(
    evs: Seq<XmlEvent>,
    st: PayloadState,
    types_by_code: Seq<(Seq<char>, Seq<char>)>,
    tags_by_name: Seq<(Seq<char>, TagView)>,
) -> Result<PayloadState, Seq<char>>
    decreases evs.len(),
{
    if evs.len() == 0 {
        Ok(st)
    } else {
        match payload_step(st, evs[0], types_by_code, tags_by_name) {
            Err(m) => Err(m),
            Ok(st2) => payload_fold(evs.drop_first(), st2, types_by_code, tags_by_name),
        }
    }
}

/// Builds the message dictionary from the events of a payload schema
/// document: message definitions indexed by name and by type code, each
/// holding its required fields, plus header and trailer entries.
pub fn parse_fix_payload_xml(
    events: &Vec<XmlEvent>,
    msgtype_name_map: &StrMap<String>,
    fix_tagname_number_map: &StrMap<FixTag>,
) -> (r: Result<(StrMap<FixMsgTag>, StrMap<FixMsgTag>), FixError>)
    ensures
        match r {
            Ok(t) => payload_fold(events@, payload_init(), msgtype_name_map@, fix_tagname_number_map@)
                matches Ok(st) && t.0@ == st.by_name && t.1@ == st.by_code,
            Err(e) => e matches FixError::ParseError(m) && payload_fold(
                events@,
                payload_init(),
                msgtype_name_map@,
                fix_tagname_number_map@,
            ) == Err::<PayloadState, Seq<char>>(m@),
        },
{
    let ghost types_v = msgtype_name_map@;
    let ghost tags_v = fix_tagname_number_map@;
    let mut by_name: StrMap<FixMsgTag> = StrMap::new();
    let mut by_code: StrMap<FixMsgTag> = StrMap::new();
    let mut cur_name: String = String::new();
    let mut cur_code: String = String::new();
    let mut flds_name: StrMap<String> = StrMap::new();
    let mut flds_tag: StrMap<String> = StrMap::new();
    proof {
        assert(events@.subrange(0, events@.len() as int) == events@);
    }
    let mut i: usize = 0;
    while i < events.len()
        invariant
            0 <= i <= events.len(),
            types_v == msgtype_name_map@,
            tags_v == fix_tagname_number_map@,
            payload_fold(
                events@.subrange(i as int, events@.len() as int),
                PayloadState {
                    by_name: by_name@,
                    by_code: by_code@,
                    cur_name: cur_name@,
                    cur_code: cur_code@,
                    cur_fields_by_name: flds_name@,
                    cur_fields_by_tag: flds_tag@,
                },
                types_v,
                tags_v,
            ) == payload_fold(events@, payload_init(), types_v, tags_v),
        decreases events.len() - i,
    {
        let ghost st_pre = PayloadState {
            by_name: by_name@,
            by_code: by_code@,
            cur_name: cur_name@,
            cur_code: cur_code@,
            cur_fields_by_name: flds_name@,
            cur_fields_by_tag: flds_tag@,
        };
        let ghost rest = events@.subrange(i as int, events@.len() as int);
        proof {
            assert(rest[0] == events@[i as int]);
            assert(rest.drop_first() == events@.subrange(i + 1, events@.len() as int));
        }
        let ev = &events[i];
        match ev {
            XmlEvent::Closed { name, attrs } => {
                if str_eq(name.as_str(), "field") {
                    match parse_field(attrs) {
                        Err(e) => {
                            return Err(e);
                        },
                        Ok((fname, req)) => {
                            if str_eq(req.as_str(), "Y") {
                                flds_name.insert(fname.clone(), req.clone());
                                match fix_tagname_number_map.get(fname.as_str()) {
                                    Some(tag) => {
                                        flds_tag.insert(tag.number.clone(), req);
                                    },
                                    None => {
                                        flds_tag.insert(fname, req);
                                    },
                                }
                            }
                        },
                    }
                }
            },
            XmlEvent::Open { name, attrs } => {
                if str_eq(name.as_str(), "message") {
                    match parse_message(attrs) {
                        Err(e) => {
                            return Err(e);
                        },
                        Ok((_mname, mtype, mcat)) => {
                            match msgtype_name_map.get(mtype.as_str()) {
                                Some(mapped) => {
                                    let mapped = mapped.clone();
                                    let tag = FixMsgTag {
                                        msgcat: mcat.clone(),
                                        msgname: mapped.clone(),
                                        field: None,
                                    };
                                    let tag2 = FixMsgTag {
                                        msgcat: mcat,
                                        msgname: mapped.clone(),
                                        field: None,
                                    };
                                    by_name.insert(mapped.clone(), tag);
                                    by_code.insert(mtype.clone(), tag2);
                                    cur_name = mapped;
                                    cur_code = mtype;
                                },
                                None => {},
                            }
                        },
                    }
                } else if str_eq(name.as_str(), "header") {
                    handle_special_tag(
                        String::from_str("HEADER"),
                        String::from_str("<"),
                        String::from_str("header"),
                        &mut by_name,
                        &mut by_code,
                        &mut cur_name,
                        &mut cur_code,
                    );
                } else if str_eq(name.as_str(), "trailer") {
                    handle_special_tag(
                        String::from_str("TRAILER"),
                        String::from_str(">"),
                        String::from_str("trailer"),
                        &mut by_name,
                        &mut by_code,
                        &mut cur_name,
                        &mut cur_code,
                    );
                }
            },
            XmlEvent::Close { name } => {
                if str_eq(name.as_str(), "message") || str_eq(name.as_str(), "header") || str_eq(
                    name.as_str(),
                    "trailer",
                ) {
                    proof {
                        crate::strmap::lemma_map_find(by_name@, cur_name@);
                        crate::strmap::lemma_map_find(by_code@, cur_code@);
                    }
                    match by_name.index_of(cur_name.as_str()) {
                        Some(idx) => {
                            let newtag = {
                                let oldt = by_name.value_at(idx);
                                FixMsgTag {
                                    msgcat: oldt.msgcat.clone(),
                                    msgname: oldt.msgname.clone(),
                                    field: Some(flds_name.clone_map()),
                                }
                            };
                            by_name.set_value_at(idx, newtag);
                        },
                        None => {},
                    }
                    match by_code.index_of(cur_code.as_str()) {
                        Some(idx) => {
                            let newtag = {
                                let oldt = by_code.value_at(idx);
                                FixMsgTag {
                                    msgcat: oldt.msgcat.clone(),
                                    msgname: oldt.msgname.clone(),
                                    field: Some(flds_tag.clone_map()),
                                }
                            };
                            by_code.set_value_at(idx, newtag);
                        },
                        None => {},
                    }
                    cur_name = String::new();
                    cur_code = String::new();
                    flds_name = StrMap::new();
                    flds_tag = StrMap::new();
                }
            },
        }
        proof {
            let st_next = PayloadState {
                by_name: by_name@,
                by_code: by_code@,
                cur_name: cur_name@,
                cur_code: cur_code@,
                cur_fields_by_name: flds_name@,
                cur_fields_by_tag: flds_tag@,
            };
            assert(payload_step(st_pre, events@[i as int], types_v, tags_v)
                == Ok::<PayloadState, Seq<char>>(st_next));
        }
        i = i + 1;
    }
    proof {
        assert(events@.subrange(i as int, events@.len() as int).len() == 0);
    }
    Ok((by_name, by_code))
}

} // verus!
