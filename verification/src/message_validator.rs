//! Parsing a raw tag=value message into a field map and checking it against
//! the dictionaries: header-required fields present, a numeric BodyLength, a
//! known MsgType, and that message type's own required fields present.
use vstd::prelude::*;

verus! {

use crate::strmap::StrMap;
use crate::strmap::spec_map_get;
use crate::strmap::spec_map_insert;
use crate::payload::FixMsgTag;
use crate::payload::MsgTagView;
use crate::strings::str_to_chars;
use crate::strings::chars_to_string;
use crate::strings::str_eq;
use crate::strings::spec_split;
use crate::strings::split_chars;
use crate::strings::char_index;
use crate::strings::lemma_char_index;
use crate::strings::find_char;
use crate::strings::subvec;
use crate::numbers::spec_parse_u64;
use crate::numbers::parse_u64;

/// The fields of `parts` accumulated onto `acc`: an empty part is skipped, a
/// `key=value` part is inserted (last value wins), and a part without `=`
/// is a format error.
pub open spec fn fields_of_parts(parts: Seq<Seq<char>>, acc: Seq<(Seq<char>, Seq<char>)>) -> Option<
    Seq<(Seq<char>, Seq<char>)>,
>
    decreases parts.len(),
{
    if parts.len() == 0 {
        Some(acc)
    } else {
        let p = parts[0];
        if p.len() == 0 {
            fields_of_parts(parts.drop_first(), acc)
        } else {
            let i = char_index(p, '=');
            if i >= 0 {
                fields_of_parts(
                    parts.drop_first(),
                    spec_map_insert(acc, p.subrange(0, i), p.subrange(i + 1, p.len() as int)),
                )
            } else {
                None
            }
        }
    }
}

/// The field map a raw message denotes, or nothing on a malformed field.
pub open spec fn spec_parse_fields(msg: Seq<char>) -> Option<Seq<(Seq<char>, Seq<char>)>> {
    fields_of_parts(spec_split(msg, '|'), Seq::empty())
}

/// Whether the field keyed `k` is present with a non-empty value.
pub open spec fn field_nonempty(fields: Seq<(Seq<char>, Seq<char>)>, k: Seq<char>) -> bool {
    match spec_map_get(fields, k) {
        Some(v) => v.len() > 0,
        None => false,
    }
}

/// Views of a list of strings.
pub open spec fn strs_view(s: Seq<String>) -> Seq<Seq<char>> {
    s.map_values(|x: String| x@)
}

/// A decoded message: its fields keyed by raw tag number.
#[derive(Debug)]
pub struct FixMessage {
    pub fields: StrMap<String>,
}

impl View for FixMessage {
    type V = Seq<(Seq<char>, Seq<char>)>;

    open spec fn view(&self) -> Seq<(Seq<char>, Seq<char>)> {
        self.fields@
    }
}

/// The validation rules, over the decoded fields and the dictionaries.
pub open spec fn spec_validate(
    fields: Seq<(Seq<char>, Seq<char>)>,
    required: Seq<Seq<char>>,
    valid_types: Seq<Seq<char>>,
    msgmap: Seq<(Seq<char>, MsgTagView)>,
) -> bool {
    &&& (forall|i: int| 0 <= i < required.len() ==> field_nonempty(fields, #[trigger] required[i]))
    &&& (match spec_map_get(fields, "9"@) {
        Some(v) => spec_parse_u64(v) is Some,
        None => true,
    })
    &&& (match spec_map_get(fields, "35"@) {
        None => false,
        Some(mt) => {
            &&& valid_types.contains(mt)
            &&& mt.len() > 0
            &&& (match spec_map_get(msgmap, mt) {
                None => false,
                Some(tag) => match tag.field {
                    None => false,
                    Some(req) => forall|i: int|
                        0 <= i < req.len() ==> field_nonempty(fields, (#[trigger] req[i]).0),
                },
            })
        },
    })
}

impl FixMessage {
    /// Splits the raw message on `|` into `key=value` fields; a non-empty
    /// part without `=` is a format error.
    #[verifier::loop_isolation(false)]
    pub fn parse(raw_message: &str) -> (r: Result<Self, &'static str>)
        ensures
            match r {
                Ok(m) => spec_parse_fields(raw_message@) == Some(m@),
                Err(e) => spec_parse_fields(raw_message@) is None && e@
                    == "Invalid field format"@,
            },
    {
        let chars = str_to_chars(raw_message);
        let parts = split_chars(&chars, '|');
        let ghost all_parts = spec_split(raw_message@, '|');
        let mut fields: StrMap<String> = StrMap::new();
        let mut i: usize = 0;
        proof {
            assert(all_parts.subrange(0, all_parts.len() as int) == all_parts);
        }
        while i < parts.len()
            invariant
                0 <= i <= parts.len(),
                parts.deep_view() == all_parts,
                fields_of_parts(
                    all_parts.subrange(i as int, all_parts.len() as int),
                    fields@,
                ) == fields_of_parts(all_parts, Seq::empty()),
            decreases parts.len() - i,
        {
            let ghost rest = all_parts.subrange(i as int, all_parts.len() as int);
            proof {
                assert(rest[0] == all_parts[i as int]);
                assert(parts.deep_view()[i as int] == parts@[i as int]@);
                assert(rest.drop_first() == all_parts.subrange(i + 1, all_parts.len() as int));
            }
            let part = &parts[i];
            if part.len() > 0 {
                match find_char(part, '=') {
                    Some(eq) => {
                        proof {
                            lemma_char_index(part@, '=');
                        }
                        let key = chars_to_string(&subvec(part, 0, eq));
                        let value = chars_to_string(&subvec(part, eq + 1, part.len()));
                        fields.insert(key, value);
                    },
                    None => {
                        proof {
                            assert(part@ == rest[0]);
                            assert(fields_of_parts(rest, fields@) is None);
                        }
                        return Err("Invalid field format");
                    },
                }
            }
            i = i + 1;
        }
        proof {
            assert(all_parts.subrange(i as int, all_parts.len() as int).len() == 0);
        }
        Ok(FixMessage { fields })
    }

    /// Checks the decoded fields against the header-required list, the known
    /// message types, and the message type's own required fields.
    #[verifier::loop_isolation(false)]
    pub fn validate(
        &self,
        required_fields: &Vec<String>,
        valid_msg_types: &Vec<String>,
        msgnumber_fields_map: &StrMap<FixMsgTag>,
    ) -> (r: bool)
        ensures
            r == spec_validate(
                self@,
                strs_view(required_fields@),
                strs_view(valid_msg_types@),
                msgnumber_fields_map@,
            ),
    {
        let mut i: usize = 0;
        while i < required_fields.len()
            invariant
                0 <= i <= required_fields.len(),
                forall|j: int|
                    0 <= j < i ==> field_nonempty(self@, #[trigger] strs_view(required_fields@)[j]),
            decreases required_fields.len() - i,
        {
            let ok = match self.fields.get(required_fields[i].as_str()) {
                Some(v) => v.as_str().len() > 0 || !v.as_str().is_empty(),
                None => false,
            };
            if !ok {
                assert(!field_nonempty(self@, strs_view(required_fields@)[i as int]));
                return false;
            }
            assert(field_nonempty(self@, strs_view(required_fields@)[i as int]));
            i = i + 1;
        }
        match self.fields.get("9") {
            Some(body_length) => {
                let bl = str_to_chars(body_length.as_str());
                if parse_u64(&bl).is_none() {
                    return false;
                }
            },
            None => {},
        }
        match self.fields.get("35") {
            Some(msg_type) => {
                let mt = msg_type.clone();
                let mut found = false;
                let mut j: usize = 0;
                while j < valid_msg_types.len()
                    invariant
                        0 <= j <= valid_msg_types.len(),
                        found == exists|k: int|
                            0 <= k < j && strs_view(valid_msg_types@)[k] == mt@,
                    decreases valid_msg_types.len() - j,
                {
                    if str_eq(valid_msg_types[j].as_str(), mt.as_str()) {
                        found = true;
                        assert(strs_view(valid_msg_types@)[j as int] == mt@);
                    }
                    j = j + 1;
                }
                proof {
                    if found {
                        assert(strs_view(valid_msg_types@).contains(mt@));
                    } else {
                        assert(!strs_view(valid_msg_types@).contains(mt@)) by {
                            if strs_view(valid_msg_types@).contains(mt@) {
                                let k = choose|k: int|
                                    0 <= k < strs_view(valid_msg_types@).len() && strs_view(
                                        valid_msg_types@,
                                    )[k] == mt@;
                            }
                        }
                    }
                }
                if !found || mt.as_str().is_empty() {
                    return false;
                }
                match msgnumber_fields_map.get(mt.as_str()) {
                    Some(msgtype_fld_info) => {
                        match &msgtype_fld_info.field {
                            Some(field_map) => {
                                let ghost req = field_map@;
                                let n = field_map.len();
                                let mut k: usize = 0;
                                while k < n
                                    invariant
                                        0 <= k <= n <= req.len(),
                                        n == req.len(),
                                        req == field_map@,
                                        forall|j: int|
                                            0 <= j < k ==> field_nonempty(
                                                self@,
                                                (#[trigger] req[j]).0,
                                            ),
                                    decreases n - k,
                                {
                                    let key = field_map.key_at(k);
                                    let ok = match self.fields.get(key.as_str()) {
                                        Some(v) => !v.as_str().is_empty(),
                                        None => false,
                                    };
                                    if !ok {
                                        proof {
                                            assert(!field_nonempty(self@, req[k as int].0));
                                            assert(spec_map_get(self@, "35"@) == Some(mt@));
                                            assert(spec_map_get(msgnumber_fields_map@, mt@)
                                                matches Some(t) && t.field == Some(req));
                                            let t = spec_map_get(msgnumber_fields_map@, mt@)->0;
                                            let rq = t.field->0;
                                            assert(rq == req);
                                            assert(!(forall|i: int|
                                                0 <= i < rq.len() ==> field_nonempty(
                                                    self@,
                                                    (#[trigger] rq[i]).0,
                                                ))) by {
                                                assert(0 <= k < rq.len() && !field_nonempty(
                                                    self@,
                                                    rq[k as int].0,
                                                ));
                                            }
                                            assert(!spec_validate(
                                                self@,
                                                strs_view(required_fields@),
                                                strs_view(valid_msg_types@),
                                                msgnumber_fields_map@,
                                            ));
                                        }
                                        return false;
                                    }
                                    assert(field_nonempty(self@, req[k as int].0));
                                    k = k + 1;
                                }
                                true
                            },
                            None => false,
                        }
                    },
                    None => false,
                }
            },
            None => false,
        }
    }
}

} // verus!
