//! The message codec: decoding wire text into a named field map through the
//! tag dictionary, and encoding templates or field maps back into wire text,
//! computing BodyLength and CheckSum. In-memory messages use `|` where the
//! wire uses SOH (0x01); the swap happens at the boundary.
use vstd::prelude::*;

verus! {

use crate::strmap::StrMap;
use crate::strmap::spec_map_get;
use crate::strmap::spec_map_insert;
use crate::strmap::spec_map_or_insert;
use crate::intmap::IntMap;
use crate::intmap::spec_int_get;
use crate::dictionary::FixTag;
use crate::dictionary::TagView;
use crate::dictionary::FixError;
use crate::strings::spec_split;
use crate::strings::split_chars;
use crate::strings::spec_replace;
use crate::strings::replace_chars;
use crate::strings::spec_upper;
use crate::strings::upper_chars;
use crate::strings::byte_len;
use crate::strings::char_byte_sum;
use crate::strings::utf8_len_u64;
use crate::strings::utf8_sum_mod256;
use crate::strings::str_to_chars;
use crate::strings::chars_to_string;
use crate::strings::str_eq;
use crate::strings::push_all;
use crate::numbers::spec_digits;
use crate::numbers::u64_to_chars;
use crate::numbers::spec_pad3;
use crate::numbers::u64_to_pad3;
use crate::numbers::spec_parse_u64;
use crate::numbers::parse_u64;

// ---------------------------------------------------------------------------
// Decoding.
// ---------------------------------------------------------------------------

/// Decoder state: the message-type name seen so far and the named fields.
pub ghost struct DecodeState {
    pub msgtype: Seq<char>,
    pub fields: Seq<(Seq<char>, Seq<char>)>,
}

/// One `tag=value` segment applied to the decoder state: the tag is looked
/// up by number, enum codes are replaced by their descriptions, tag 35's
/// description becomes the message-type name, unknown or malformed tags are
/// recorded under synthetic keys, and segments that are not exactly
/// `tag=value` are skipped.
pub open spec fn decode_field(st: DecodeState, f: Seq<char>, tags: Seq<(u64, TagView)>) -> DecodeState {
    let parts = spec_split(f, '=');
    if parts.len() != 2 {
        st
    } else {
        let value = parts[1];
        match spec_parse_u64(parts[0]) {
            Some(t) => if t <= u32::MAX as u64 {
                match spec_int_get(tags, t) {
                    Some(tag) => match tag.enum_values {
                        Some(evs) => {
                            let desc = match spec_map_get(evs, value) {
                                Some(d) => d,
                                None => value,
                            };
                            DecodeState {
                                msgtype: if tag.name == "MsgType"@ {
                                    desc
                                } else {
                                    st.msgtype
                                },
                                fields: spec_map_or_insert(st.fields, tag.name, desc),
                            }
                        },
                        None => DecodeState {
                            msgtype: st.msgtype,
                            fields: spec_map_or_insert(st.fields, tag.name, value),
                        },
                    },
                    None => DecodeState {
                        msgtype: "UnknownTag"@,
                        fields: spec_map_insert(st.fields, "Unknown tag"@, value),
                    },
                }
            } else {
                DecodeState {
                    msgtype: "InvalidTagNumber"@,
                    fields: spec_map_insert(st.fields, "Invalid tag number"@, value),
                }
            },
            None => DecodeState {
                msgtype: "InvalidTagNumber"@,
                fields: spec_map_insert(st.fields, "Invalid tag number"@, value),
            },
        }
    }
}

pub open spec fn decode_fold(
    parts: Seq<Seq<char>>,
    st: DecodeState,
    tags: Seq<(u64, TagView)>,
) -> DecodeState
    decreases parts.len(),
{
    if parts.len() == 0 {
        st
    } else {
        decode_fold(parts.drop_first(), decode_field(st, parts[0], tags), tags)
    }
}

/// What decoding a raw message yields: SOH becomes `|`, the message splits
/// on `|`, and each segment feeds the decoder state in order.
pub open spec fn spec_decode(msg: Seq<char>, tags: Seq<(u64, TagView)>) -> DecodeState {
    decode_fold(
        spec_split(spec_replace(msg, '\x01', '|'), '|'),
        DecodeState { msgtype: Seq::empty(), fields: Seq::empty() },
        tags,
    )
}

/// Decodes a raw message into its message-type name and its fields keyed by
/// dictionary name.
#[verifier::loop_isolation(false)]
pub fn fixmsg2msgtype(fixmsg: &str, fix_tag_number_map: &IntMap<FixTag>) -> (r: Result<
    (String, StrMap<String>),
    FixError,
>)
    ensures
        r matches Ok(t) && t.0@ == spec_decode(fixmsg@, fix_tag_number_map@).msgtype && t.1@
            == spec_decode(fixmsg@, fix_tag_number_map@).fields,
{
    let ghost tags = fix_tag_number_map@;
    let raw = str_to_chars(fixmsg);
    let modified = replace_chars(&raw, '\x01', '|');
    let parts = split_chars(&modified, '|');
    let ghost all_parts = spec_split(spec_replace(fixmsg@, '\x01', '|'), '|');
    let mut msgtype: String = String::new();
    let mut msg_map: StrMap<String> = StrMap::new();
    proof {
        assert(all_parts.subrange(0, all_parts.len() as int) == all_parts);
    }
    let mut i: usize = 0;
    while i < parts.len()
        invariant
            0 <= i <= parts.len(),
            decode_fold(
                all_parts.subrange(i as int, all_parts.len() as int),
                DecodeState { msgtype: msgtype@, fields: msg_map@ },
                tags,
            ) == spec_decode(fixmsg@, tags),
        decreases parts.len() - i,
    {
        let ghost st_pre = DecodeState { msgtype: msgtype@, fields: msg_map@ };
        let ghost rest = all_parts.subrange(i as int, all_parts.len() as int);
        proof {
            assert(rest[0] == all_parts[i as int]);
            assert(parts.deep_view()[i as int] == parts@[i as int]@);
            assert(rest.drop_first() == all_parts.subrange(i + 1, all_parts.len() as int));
        }
        let field = &parts[i];
        let fparts = split_chars(field, '=');
        proof {
            assert(fparts.deep_view() == spec_split(field@, '='));
            if fparts.deep_view().len() == 2 {
                assert(fparts@[0]@ == spec_split(field@, '=')[0]);
                assert(fparts@[1]@ == spec_split(field@, '=')[1]);
            }
        }
        if fparts.len() == 2 {
            let value = chars_to_string(&fparts[1]);
            match parse_u64(&fparts[0]) {
                Some(t) if t <= 0xFFFF_FFFFu64 => {
                    match fix_tag_number_map.get(t) {
                        Some(tag_definition) => {
                            match &tag_definition.enum_values {
                                Some(enum_values) => {
                                    let desc = match enum_values.get(value.as_str()) {
                                        Some(d) => d.clone(),
                                        None => value,
                                    };
                                    if str_eq(tag_definition.name.as_str(), "MsgType") {
                                        msgtype = desc.clone();
                                    }
                                    msg_map.or_insert(tag_definition.name.clone(), desc);
                                },
                                None => {
                                    msg_map.or_insert(tag_definition.name.clone(), value);
                                },
                            }
                        },
                        None => {
                            msgtype = String::from_str("UnknownTag");
                            msg_map.insert(String::from_str("Unknown tag"), value);
                        },
                    }
                },
                _ => {
                    msgtype = String::from_str("InvalidTagNumber");
                    msg_map.insert(String::from_str("Invalid tag number"), value);
                },
            }
        }
        proof {
            let st_next = DecodeState { msgtype: msgtype@, fields: msg_map@ };
            assert(decode_field(st_pre, rest[0], tags) == st_next);
        }
        i = i + 1;
    }
    proof {
        assert(all_parts.subrange(i as int, all_parts.len() as int).len() == 0);
    }
    Ok((msgtype, msg_map))
}

// ---------------------------------------------------------------------------
// Encoding.
// ---------------------------------------------------------------------------

/// The overrides argument at the view level.
pub open spec fn override_view(o: Option<&StrMap<String>>) -> Option<Seq<(Seq<char>, Seq<char>)>> {
    match o {
        Some(m) => Some(m@),
        None => None,
    }
}

/// Saturating addition on `u64`.
pub open spec fn sat_add64(a: u64, b: u64) -> u64 {
    if a + b > u64::MAX {
        u64::MAX
    } else {
        (a + b) as u64
    }
}

/// Encoder state: the joined field text so far and the accumulated
/// BodyLength (bytes of each counted field plus one per separator).
pub ghost struct EncState {
    pub body: Seq<char>,
    pub body_len: u64,
}

/// The byte length of `s`, saturated to `u64`.
pub open spec fn byte_len64(s: Seq<char>) -> u64 {
    if byte_len(s) <= u64::MAX {
        byte_len(s) as u64
    } else {
        u64::MAX
    }
}

/// One template entry applied to the encoder state. The field's name is
/// looked up in the dictionary (unknown names are skipped), enum
/// descriptions are folded to their codes, `BodyLength` emits a placeholder
/// to be back-filled, `SendingTime` emits the given timestamp, `MsgSeqNum`
/// the given sequence number, and `CheckSum` is left for the trailer.
/// Every emitted field except `BeginString` and `BodyLength` adds its byte
/// length plus one to the running BodyLength.
pub open spec fn enc_field(
    st: EncState,
    key: Seq<char>,
    value: Seq<char>,
    tags: Seq<(Seq<char>, TagView)>,
    seq_num: u64,
    ts: Seq<char>,
) -> EncState {
    match spec_map_get(tags, key) {
        None => st,
        Some(tag) => {
            if key == "CheckSum"@ {
                st
            } else {
                let tv = match tag.enum_values {
                    Some(evs) => match spec_map_get(evs, spec_upper(value)) {
                        Some(code) => code,
                        None => value,
                    },
                    None => if key == "BodyLength"@ {
                        "#"@
                    } else {
                        value
                    },
                };
                let payload = if key == "SendingTime"@ {
                    ts
                } else if key == "MsgSeqNum"@ {
                    spec_digits(seq_num as nat)
                } else {
                    tv
                };
                let new_tag = tag.number + "="@ + payload;
                EncState {
                    body: if st.body.len() == 0 {
                        new_tag
                    } else {
                        st.body + "|"@ + new_tag
                    },
                    body_len: if key != "BeginString"@ && key != "BodyLength"@ {
                        sat_add64(sat_add64(st.body_len, byte_len64(new_tag)), 1)
                    } else {
                        st.body_len
                    },
                }
            }
        },
    }
}

pub open spec fn enc_fold(
    entries: Seq<(Seq<char>, Seq<char>)>,
    st: EncState,
    tags: Seq<(Seq<char>, TagView)>,
    seq_num: u64,
    ts: Seq<char>,
) -> EncState
    decreases entries.len(),
{
    if entries.len() == 0 {
        st
    } else {
        enc_fold(
            entries.drop_first(),
            enc_field(st, entries[0].0, entries[0].1, tags, seq_num, ts),
            tags,
            seq_num,
            ts,
        )
    }
}

/// `s` with every `#` replaced by `rep` (the BodyLength back-fill).
pub open spec fn replace_hash(s: Seq<char>, rep: Seq<char>) -> Seq<char>
    decreases s.len(),
{
    if s.len() == 0 {
        Seq::empty()
    } else {
        (if s[0] == '#' {
            rep
        } else {
            seq![s[0]]
        }) + replace_hash(s.drop_first(), rep)
    }
}

/// The finished message: the body with its BodyLength back-filled, then the
/// CheckSum field, whose three digits are the byte sum (in SOH form) of
/// everything before it, modulo 256.
pub open spec fn finish_message(body: Seq<char>, body_len: u64) -> Seq<char> {
    let filled = replace_hash(body, spec_digits(body_len as nat));
    let cs = char_byte_sum(spec_replace(filled, '|', '\x01')) % 256;
    filled + "|10="@ + spec_pad3(cs) + "|"@
}

/// A finished message always ends in the CheckSum field, so it is never
/// empty.
pub proof fn lemma_finish_nonempty(body: Seq<char>, body_len: u64)
    ensures
        finish_message(body, body_len).len() > 0,
{
    reveal_strlit("|10=");
    reveal_strlit("|");
}

/// An encoded template message is never empty.
pub proof fn lemma_encode_template_nonempty(
    msgtype: Seq<char>,
    templates: Seq<(Seq<char>, Seq<(Seq<char>, Seq<char>)>)>,
    tags: Seq<(Seq<char>, TagView)>,
    ovr: Option<Seq<(Seq<char>, Seq<char>)>>,
    seq_num: u64,
    ts: Seq<char>,
)
    ensures
        spec_encode_template(msgtype, templates, tags, ovr, seq_num, ts).len() > 0,
{
    let st = match spec_map_get(templates, msgtype) {
        None => EncState { body: Seq::empty(), body_len: 0 },
        Some(t) => {
            let merged = match ovr {
                Some(o) => merge_overrides(t, o),
                None => t,
            };
            enc_fold(merged, EncState { body: Seq::empty(), body_len: 0 }, tags, seq_num, ts)
        },
    };
    lemma_finish_nonempty(st.body, st.body_len);
}

/// The overrides laid over the template, in override order.
pub open spec fn merge_overrides(
    t: Seq<(Seq<char>, Seq<char>)>,
    ovr: Seq<(Seq<char>, Seq<char>)>,
) -> Seq<(Seq<char>, Seq<char>)>
    decreases ovr.len(),
{
    if ovr.len() == 0 {
        t
    } else {
        merge_overrides(spec_map_insert(t, ovr[0].0, ovr[0].1), ovr.drop_first())
    }
}

/// What encoding from a template yields: the template for the type (absent
/// types encode an empty body), overlaid with the overrides, folded into
/// fields and finished with BodyLength and CheckSum.
pub open spec fn spec_encode_template(
    msgtype: Seq<char>,
    templates: Seq<(Seq<char>, Seq<(Seq<char>, Seq<char>)>)>,
    tags: Seq<(Seq<char>, TagView)>,
    ovr: Option<Seq<(Seq<char>, Seq<char>)>>,
    seq_num: u64,
    ts: Seq<char>,
) -> Seq<char> {
    let st = match spec_map_get(templates, msgtype) {
        None => EncState { body: Seq::empty(), body_len: 0 },
        Some(t) => {
            let merged = match ovr {
                Some(o) => merge_overrides(t, o),
                None => t,
            };
            enc_fold(merged, EncState { body: Seq::empty(), body_len: 0 }, tags, seq_num, ts)
        },
    };
    finish_message(st.body, st.body_len)
}

/// Relies on chrono's Utc::now and DateTime::format: the current UTC time
/// rendered as `YYYYMMDD-HH:MM:SS.mmm`.
#[verifier::external_body]
pub(crate) fn sending_time_now() -> (r: String)
{
    chrono::Utc::now().format("%Y%m%d-%H:%M:%S%.3f").to_string()
}

/// `s` with every `#` replaced by `rep`.
fn replace_hash_chars(s: &Vec<char>, rep: &Vec<char>) -> (r: Vec<char>)
    ensures
        r@ == replace_hash(s@, rep@),
{
    let mut r: Vec<char> = Vec::new();
    proof {
        assert(s@.subrange(0, s@.len() as int) == s@);
    }
    let mut i: usize = 0;
    while i < s.len()
        invariant
            0 <= i <= s.len(),
            r@ + replace_hash(s@.subrange(i as int, s@.len() as int), rep@) == replace_hash(
                s@,
                rep@,
            ),
        decreases s.len() - i,
    {
        let ghost rest = s@.subrange(i as int, s@.len() as int);
        proof {
            assert(rest[0] == s@[i as int]);
            assert(rest.drop_first() == s@.subrange(i + 1, s@.len() as int));
        }
        let ghost pre = r@;
        if s[i] == '#' {
            push_all(&mut r, rep);
            proof {
                assert(pre + (rep@ + replace_hash(rest.drop_first(), rep@)) =~= (pre + rep@)
                    + replace_hash(rest.drop_first(), rep@));
            }
        } else {
            r.push(s[i]);
            proof {
                assert(pre + (seq![s@[i as int]] + replace_hash(rest.drop_first(), rep@)) =~= (pre
                    + seq![s@[i as int]]) + replace_hash(rest.drop_first(), rep@));
            }
        }
        i = i + 1;
    }
    proof {
        assert(s@.subrange(i as int, s@.len() as int).len() == 0);
        assert(replace_hash(s@.subrange(i as int, s@.len() as int), rep@) == Seq::<char>::empty());
        assert(r@ + Seq::<char>::empty() =~= r@);
    }
    r
}

/// Back-fills BodyLength and appends the CheckSum trailer.
fn finish_encoded(body: &Vec<char>, body_len: u64) -> (r: String)
    ensures
        r@ == finish_message(body@, body_len),
{
    let digits = u64_to_chars(body_len);
    let filled = replace_hash_chars(body, &digits);
    let soh = replace_chars(&filled, '|', '\x01');
    let cs = utf8_sum_mod256(&soh);
    let pad = u64_to_pad3(cs);
    let mut out = filled;
    let trailer = str_to_chars("|10=");
    push_all(&mut out, &trailer);
    push_all(&mut out, &pad);
    let bar = str_to_chars("|");
    push_all(&mut out, &bar);
    let r = chars_to_string(&out);
    proof {
        assert(r@ =~= finish_message(body@, body_len));
    }
    r
}

/// One field appended to the in-progress body; mirrors `enc_field`.
#[verifier::loop_isolation(false)]
fn encode_one_field(
    body: &mut Vec<char>,
    body_len: &mut u64,
    key: &String,
    value: &String,
    fix_tagname_number_map: &StrMap<FixTag>,
    msg_seq_num: u64,
    sending_time: &String,
) -> (emitted: bool)
    ensures
        ({
            let st = enc_field(
                EncState { body: old(body)@, body_len: *old(body_len) },
                key@,
                value@,
                fix_tagname_number_map@,
                msg_seq_num,
                sending_time@,
            );
            final(body)@ == st.body && *final(body_len) == st.body_len
        }),
{
    let ghost st0 = EncState { body: old(body)@, body_len: *old(body_len) };
    match fix_tagname_number_map.get(key.as_str()) {
        None => false,
        Some(tags_info) => {
            if str_eq(key.as_str(), "CheckSum") {
                return false;
            }
            let value_chars = str_to_chars(value.as_str());
            let tv: Vec<char> = match &tags_info.enum_values {
                Some(enum_values) => {
                    let upper = chars_to_string(&upper_chars(&value_chars));
                    match enum_values.get(upper.as_str()) {
                        Some(code) => str_to_chars(code.as_str()),
                        None => str_to_chars(value.as_str()),
                    }
                },
                None => {
                    if str_eq(key.as_str(), "BodyLength") {
                        str_to_chars("#")
                    } else {
                        str_to_chars(value.as_str())
                    }
                },
            };
            let payload: Vec<char> = if str_eq(key.as_str(), "SendingTime") {
                str_to_chars(sending_time.as_str())
            } else if str_eq(key.as_str(), "MsgSeqNum") {
                u64_to_chars(msg_seq_num)
            } else {
                tv
            };
            let mut new_tag = str_to_chars(tags_info.number.as_str());
            let eq = str_to_chars("=");
            push_all(&mut new_tag, &eq);
            push_all(&mut new_tag, &payload);
            if body.len() == 0 {
                push_all(body, &new_tag);
            } else {
                let bar = str_to_chars("|");
                push_all(body, &bar);
                push_all(body, &new_tag);
            }
            if !str_eq(key.as_str(), "BeginString") && !str_eq(key.as_str(), "BodyLength") {
                let l = utf8_len_u64(&new_tag);
                let a = if *body_len > u64::MAX - l {
                    u64::MAX
                } else {
                    *body_len + l
                };
                *body_len = if a > u64::MAX - 1 {
                    u64::MAX
                } else {
                    a + 1
                };
            }
            true
        },
    }
}

/// Encodes a message of the given type from the template set, with the given
/// overrides, sequence number and SendingTime value.
#[verifier::loop_isolation(false)]
pub fn encode_from_template(
    msgtype: &String,
    msg_map: &StrMap<StrMap<String>>,
    fix_tagname_number_map: &StrMap<FixTag>,
    override_map: Option<&StrMap<String>>,
    msg_seq_num: u64,
    sending_time: &String,
) -> (r: String)
    ensures
        r@ == spec_encode_template(
            msgtype@,
            msg_map@,
            fix_tagname_number_map@,
            override_view(override_map),
            msg_seq_num,
            sending_time@,
        ),
{
    let mut body: Vec<char> = Vec::new();
    let mut body_len: u64 = 0;
    let ghost ovr_v: Option<Seq<(Seq<char>, Seq<char>)>> = match override_map {
        Some(o) => Some(o@),
        None => None,
    };
    match msg_map.get(msgtype.as_str()) {
        None => {},
        Some(predefined) => {
            let mut merged = predefined.clone_map();
            let ghost tpl = predefined@;
            match override_map {
                Some(ov) => {
                    let ghost ovv = ov@;
                    proof {
                        assert(ovv.subrange(0, ovv.len() as int) == ovv);
                    }
                    let n = ov.len();
                    let mut j: usize = 0;
                    while j < n
                        invariant
                            0 <= j <= n,
                            n == ovv.len(),
                            merge_overrides(
                                merged@,
                                ovv.subrange(j as int, ovv.len() as int),
                            ) == merge_overrides(tpl, ovv),
                        decreases n - j,
                    {
                        let ghost orest = ovv.subrange(j as int, ovv.len() as int);
                        proof {
                            assert(orest[0] == ovv[j as int]);
                            assert(orest.drop_first() == ovv.subrange(j + 1, ovv.len() as int));
                        }
                        let k = ov.key_at(j).clone();
                        let v = ov.value_at(j).clone();
                        merged.insert(k, v);
                        j = j + 1;
                    }
                    proof {
                        assert(ovv.subrange(j as int, ovv.len() as int).len() == 0);
                    }
                },
                None => {},
            }
            let ghost entries = merged@;
            proof {
                assert(entries.subrange(0, entries.len() as int) == entries);
            }
            let n = merged.len();
            let mut i: usize = 0;
            while i < n
                invariant
                    0 <= i <= n,
                    n == entries.len(),
                    entries == merged@,
                    enc_fold(
                        entries.subrange(i as int, entries.len() as int),
                        EncState { body: body@, body_len: body_len },
                        fix_tagname_number_map@,
                        msg_seq_num,
                        sending_time@,
                    ) == enc_fold(
                        entries,
                        EncState { body: Seq::empty(), body_len: 0 },
                        fix_tagname_number_map@,
                        msg_seq_num,
                        sending_time@,
                    ),
                decreases n - i,
            {
                let ghost erest = entries.subrange(i as int, entries.len() as int);
                proof {
                    assert(erest[0] == entries[i as int]);
                    assert(erest.drop_first() == entries.subrange(i + 1, entries.len() as int));
                }
                let key = merged.key_at(i).clone();
                let value = merged.value_at(i).clone();
                encode_one_field(
                    &mut body,
                    &mut body_len,
                    &key,
                    &value,
                    fix_tagname_number_map,
                    msg_seq_num,
                    sending_time,
                );
                i = i + 1;
            }
            proof {
                assert(entries.subrange(i as int, entries.len() as int).len() == 0);
            }
        },
    }
    finish_encoded(&body, body_len)
}

/// Encodes a message of the given type from the template set, stamped with
/// the current UTC time where the template carries a SendingTime field.
pub fn msgtype2fixmsg(
    msgtype: String,
    msg_map: &StrMap<StrMap<String>>,
    fix_tagname_number_map: &StrMap<FixTag>,
    override_map: Option<&StrMap<String>>,
    msg_seq_num: u64,
) -> (r: String)
    ensures
        exists|ts: Seq<char>|
            r@ == #[trigger] spec_encode_template(
                msgtype@,
                msg_map@,
                fix_tagname_number_map@,
                override_view(override_map),
                msg_seq_num,
                ts,
            ),
{
    let ts = sending_time_now();
    let r = encode_from_template(
        &msgtype,
        msg_map,
        fix_tagname_number_map,
        override_map,
        msg_seq_num,
        &ts,
    );
    proof {
        assert(r@ == spec_encode_template(
            msgtype@,
            msg_map@,
            fix_tagname_number_map@,
            override_view(override_map),
            msg_seq_num,
            ts@,
        ));
    }
    r
}

/// One field-map entry applied to the encoder state: as `enc_field`, except
/// that a name absent from the dictionary passes through as `name=value`.
pub open spec fn enc_map_field(
    st: EncState,
    key: Seq<char>,
    value: Seq<char>,
    tags: Seq<(Seq<char>, TagView)>,
    seq_num: u64,
    ts: Seq<char>,
) -> EncState {
    match spec_map_get(tags, key) {
        Some(_) => enc_field(st, key, value, tags, seq_num, ts),
        None => {
            let new_tag = key + "="@ + value;
            EncState {
                body: if st.body.len() == 0 {
                    new_tag
                } else {
                    st.body + "|"@ + new_tag
                },
                body_len: if key != "BeginString"@ && key != "BodyLength"@ {
                    sat_add64(sat_add64(st.body_len, byte_len64(new_tag)), 1)
                } else {
                    st.body_len
                },
            }
        },
    }
}

pub open spec fn enc_map_fold(
    entries: Seq<(Seq<char>, Seq<char>)>,
    st: EncState,
    tags: Seq<(Seq<char>, TagView)>,
    seq_num: u64,
    ts: Seq<char>,
) -> EncState
    decreases entries.len(),
{
    if entries.len() == 0 {
        st
    } else {
        enc_map_fold(
            entries.drop_first(),
            enc_map_field(st, entries[0].0, entries[0].1, tags, seq_num, ts),
            tags,
            seq_num,
            ts,
        )
    }
}

/// What encoding a field map yields: the map's own entries are the template.
pub open spec fn spec_encode_fieldmap(
    entries: Seq<(Seq<char>, Seq<char>)>,
    tags: Seq<(Seq<char>, TagView)>,
    seq_num: u64,
    ts: Seq<char>,
) -> Seq<char> {
    let st = enc_map_fold(entries, EncState { body: Seq::empty(), body_len: 0 }, tags, seq_num, ts);
    finish_message(st.body, st.body_len)
}

/// Encodes the given field map with the given sequence number and
/// SendingTime value.
#[verifier::loop_isolation(false)]
pub fn encode_from_fieldmap(
    msg_map: &StrMap<String>,
    fix_tag_name_map: &StrMap<FixTag>,
    msg_seq_num: u64,
    sending_time: &String,
) -> (r: String)
    ensures
        r@ == spec_encode_fieldmap(msg_map@, fix_tag_name_map@, msg_seq_num, sending_time@),
{
    let mut body: Vec<char> = Vec::new();
    let mut body_len: u64 = 0;
    let ghost entries = msg_map@;
    proof {
        assert(entries.subrange(0, entries.len() as int) == entries);
    }
    let n = msg_map.len();
    let mut i: usize = 0;
    while i < n
        invariant
            0 <= i <= n,
            n == entries.len(),
            enc_map_fold(
                entries.subrange(i as int, entries.len() as int),
                EncState { body: body@, body_len: body_len },
                fix_tag_name_map@,
                msg_seq_num,
                sending_time@,
            ) == enc_map_fold(
                entries,
                EncState { body: Seq::empty(), body_len: 0 },
                fix_tag_name_map@,
                msg_seq_num,
                sending_time@,
            ),
        decreases n - i,
    {
        let ghost st_pre = EncState { body: body@, body_len: body_len };
        let ghost erest = entries.subrange(i as int, entries.len() as int);
        proof {
            assert(erest[0] == entries[i as int]);
            assert(erest.drop_first() == entries.subrange(i + 1, entries.len() as int));
        }
        let key = msg_map.key_at(i).clone();
        let value = msg_map.value_at(i).clone();
        if fix_tag_name_map.has_key(key.as_str()) {
            encode_one_field(
                &mut body,
                &mut body_len,
                &key,
                &value,
                fix_tag_name_map,
                msg_seq_num,
                sending_time,
            );
        } else {
            let mut new_tag = str_to_chars(key.as_str());
            let eq = str_to_chars("=");
            push_all(&mut new_tag, &eq);
            let vc = str_to_chars(value.as_str());
            push_all(&mut new_tag, &vc);
            if body.len() == 0 {
                push_all(&mut body, &new_tag);
            } else {
                let bar = str_to_chars("|");
                push_all(&mut body, &bar);
                push_all(&mut body, &new_tag);
            }
            if !str_eq(key.as_str(), "BeginString") && !str_eq(key.as_str(), "BodyLength") {
                let l = utf8_len_u64(&new_tag);
                let a = if body_len > u64::MAX - l {
                    u64::MAX
                } else {
                    body_len + l
                };
                body_len = if a > u64::MAX - 1 {
                    u64::MAX
                } else {
                    a + 1
                };
            }
        }
        proof {
            let st_next = EncState { body: body@, body_len: body_len };
            assert(enc_map_field(
                st_pre,
                entries[i as int].0,
                entries[i as int].1,
                fix_tag_name_map@,
                msg_seq_num,
                sending_time@,
            ) == st_next);
        }
        i = i + 1;
    }
    proof {
        assert(entries.subrange(i as int, entries.len() as int).len() == 0);
    }
    finish_encoded(&body, body_len)
}

/// Encodes the given field map, stamped with the current UTC time where the
/// map carries a SendingTime field.
pub fn fixmap2fixmsg(
    msg_map: &StrMap<String>,
    fix_tag_name_map: &StrMap<FixTag>,
    msg_seq_num: u64,
) -> (r: String)
    ensures
        exists|ts: Seq<char>|
            r@ == #[trigger] spec_encode_fieldmap(msg_map@, fix_tag_name_map@, msg_seq_num, ts),
{
    let ts = sending_time_now();
    let r = encode_from_fieldmap(msg_map, fix_tag_name_map, msg_seq_num, &ts);
    proof {
        assert(r@ == spec_encode_fieldmap(msg_map@, fix_tag_name_map@, msg_seq_num, ts@));
    }
    r
}


/// Pairs of strings at the view level.
pub open spec fn pairs_view(s: Seq<(String, String)>) -> Seq<(Seq<char>, Seq<char>)> {
    s.map_values(|e: (String, String)| (e.0@, e.1@))
}

/// The pairs inserted into `acc` in order.
pub open spec fn section_fold(
    ps: Seq<(Seq<char>, Seq<char>)>,
    acc: Seq<(Seq<char>, Seq<char>)>,
) -> Seq<(Seq<char>, Seq<char>)>
    decreases ps.len(),
{
    if ps.len() == 0 {
        acc
    } else {
        section_fold(ps.drop_first(), spec_map_insert(acc, ps[0].0, ps[0].1))
    }
}

/// Builds the field map of one template section from its key/value pairs.
#[verifier::loop_isolation(false)]
pub fn extract_section(entries: &Vec<(String, String)>) -> (r: StrMap<String>)
    ensures
        r@ == section_fold(pairs_view(entries@), Seq::empty()),
{
    let mut section_map: StrMap<String> = StrMap::new();
    let ghost ps = pairs_view(entries@);
    proof {
        assert(ps.subrange(0, ps.len() as int) == ps);
    }
    let mut i: usize = 0;
    while i < entries.len()
        invariant
            0 <= i <= entries.len(),
            section_fold(ps.subrange(i as int, ps.len() as int), section_map@) == section_fold(
                ps,
                Seq::empty(),
            ),
        decreases entries.len() - i,
    {
        let ghost rest = ps.subrange(i as int, ps.len() as int);
        proof {
            assert(rest[0] == ps[i as int]);
            assert(rest.drop_first() == ps.subrange(i + 1, ps.len() as int));
        }
        let k = entries[i].0.clone();
        let v = entries[i].1.clone();
        section_map.insert(k, v);
        i = i + 1;
    }
    proof {
        assert(ps.subrange(i as int, ps.len() as int).len() == 0);
    }
    section_map
}

/// The header laid under a message template: every header field keeps its
/// value, except that `MsgType` takes the message's own name.
pub open spec fn header_overlay(
    header: Seq<(Seq<char>, Seq<char>)>,
    key: Seq<char>,
    acc: Seq<(Seq<char>, Seq<char>)>,
) -> Seq<(Seq<char>, Seq<char>)>
    decreases header.len(),
{
    if header.len() == 0 {
        acc
    } else {
        header_overlay(
            header.drop_first(),
            key,
            spec_map_insert(
                acc,
                header[0].0,
                if header[0].0 == "MsgType"@ {
                    key
                } else {
                    header[0].1
                },
            ),
        )
    }
}

/// One ready-to-send template: the header fields (MsgType renamed to the
/// message key), then the message's own fields on top.
pub open spec fn template_of(
    header: Seq<(Seq<char>, Seq<char>)>,
    key: Seq<char>,
    ventries: Seq<(Seq<char>, Seq<char>)>,
) -> Seq<(Seq<char>, Seq<char>)> {
    section_fold(ventries, header_overlay(header, key, Seq::empty()))
}

/// Template sections at the view level.
pub open spec fn sections_view(s: Seq<(String, Vec<(String, String)>)>) -> Seq<
    (Seq<char>, Seq<(Seq<char>, Seq<char>)>),
> {
    s.map_values(|e: (String, Vec<(String, String)>)| (e.0@, pairs_view(e.1@)))
}

/// The templates of a whole section, keyed by message name.
pub open spec fn msgs_fold(
    entries: Seq<(Seq<char>, Seq<(Seq<char>, Seq<char>)>)>,
    header: Seq<(Seq<char>, Seq<char>)>,
    acc: Seq<(Seq<char>, Seq<(Seq<char>, Seq<char>)>)>,
) -> Seq<(Seq<char>, Seq<(Seq<char>, Seq<char>)>)>
    decreases entries.len(),
{
    if entries.len() == 0 {
        acc
    } else {
        msgs_fold(
            entries.drop_first(),
            header,
            spec_map_insert(acc, entries[0].0, template_of(header, entries[0].0, entries[0].1)),
        )
    }
}

/// Builds the ready-to-send templates of one section (admin or app): each
/// message's fields merged over the header, with `MsgType` set to the
/// message's key.
#[verifier::loop_isolation(false)]
pub fn extract_msg_map(
    section: &Vec<(String, Vec<(String, String)>)>,
    fix_header: &StrMap<String>,
) -> (r: StrMap<StrMap<String>>)
    ensures
        r@ == msgs_fold(sections_view(section@), fix_header@, Seq::empty()),
{
    let mut msg_map: StrMap<StrMap<String>> = StrMap::new();
    let ghost sv = sections_view(section@);
    let ghost hv = fix_header@;
    proof {
        assert(sv.subrange(0, sv.len() as int) == sv);
    }
    let mut i: usize = 0;
    while i < section.len()
        invariant
            0 <= i <= section.len(),
            msgs_fold(sv.subrange(i as int, sv.len() as int), hv, msg_map@) == msgs_fold(
                sv,
                hv,
                Seq::empty(),
            ),
        decreases section.len() - i,
    {
        let ghost rest = sv.subrange(i as int, sv.len() as int);
        proof {
            assert(rest[0] == sv[i as int]);
            assert(rest.drop_first() == sv.subrange(i + 1, sv.len() as int));
        }
        let key = section[i].0.clone();
        let mut msg_tags: StrMap<String> = StrMap::new();
        let ghost hlen = hv.len();
        proof {
            assert(hv.subrange(0, hv.len() as int) == hv);
        }
        let n = fix_header.len();
        let mut j: usize = 0;
        while j < n
            invariant
                0 <= j <= n,
                n == hv.len(),
                hv == fix_header@,
                key@ == sv[i as int].0,
                i < sv.len(),
                header_overlay(hv.subrange(j as int, hv.len() as int), key@, msg_tags@)
                    == header_overlay(hv, key@, Seq::empty()),
            decreases n - j,
        {
            let ghost hrest = hv.subrange(j as int, hv.len() as int);
            proof {
                assert(hrest[0] == hv[j as int]);
                assert(hrest.drop_first() == hv.subrange(j + 1, hv.len() as int));
            }
            let f_k = fix_header.key_at(j).clone();
            let f_v = fix_header.value_at(j).clone();
            if str_eq(f_k.as_str(), "MsgType") {
                msg_tags.insert(f_k, key.clone());
            } else {
                msg_tags.insert(f_k, f_v);
            }
            j = j + 1;
        }
        proof {
            assert(hv.subrange(j as int, hv.len() as int).len() == 0);
        }
        let ghost ventries = sv[i as int].1;
        let values = &section[i].1;
        proof {
            assert(ventries == pairs_view(values@));
            assert(ventries.subrange(0, ventries.len() as int) == ventries);
        }
        let mut k2: usize = 0;
        while k2 < values.len()
            invariant
                0 <= k2 <= values.len(),
                ventries == pairs_view(values@),
                section_fold(
                    ventries.subrange(k2 as int, ventries.len() as int),
                    msg_tags@,
                ) == section_fold(ventries, header_overlay(hv, key@, Seq::empty())),
            decreases values.len() - k2,
        {
            let ghost vrest = ventries.subrange(k2 as int, ventries.len() as int);
            proof {
                assert(vrest[0] == ventries[k2 as int]);
                assert(vrest.drop_first() == ventries.subrange(k2 + 1, ventries.len() as int));
            }
            let vk = values[k2].0.clone();
            let vv = values[k2].1.clone();
            msg_tags.insert(vk, vv);
            k2 = k2 + 1;
        }
        proof {
            assert(ventries.subrange(k2 as int, ventries.len() as int).len() == 0);
            assert(msg_tags@ == template_of(hv, key@, ventries));
        }
        msg_map.insert(key, msg_tags);
        i = i + 1;
    }
    proof {
        assert(sv.subrange(i as int, sv.len() as int).len() == 0);
    }
    msg_map
}


/// CheckSum correctness: every finished message is its back-filled body
/// followed by the CheckSum field, and the field's three digits denote the
/// byte sum of everything before it, in wire (SOH) form, modulo 256.
pub proof fn lemma_checksum_correct(body: Seq<char>, body_len: u64)
    ensures
        ({
            let filled = replace_hash(body, spec_digits(body_len as nat));
            let cs = char_byte_sum(spec_replace(filled, '|', '\x01')) % 256;
            &&& finish_message(body, body_len) == filled + "|10="@ + spec_pad3(cs) + "|"@
            &&& cs < 256
            &&& crate::numbers::digits_val(spec_pad3(cs)) == cs
        }),
{
    let filled = replace_hash(body, spec_digits(body_len as nat));
    let cs = char_byte_sum(spec_replace(filled, '|', '\x01')) % 256;
    crate::numbers::lemma_pad3_val(cs);
}

/// The field text one template entry emits, if any; mirrors `enc_field`.
pub open spec fn field_text(
    key: Seq<char>,
    value: Seq<char>,
    tags: Seq<(Seq<char>, TagView)>,
    seq_num: u64,
    ts: Seq<char>,
) -> Option<Seq<char>> {
    match spec_map_get(tags, key) {
        None => None,
        Some(tag) => {
            if key == "CheckSum"@ {
                None
            } else {
                let tv = match tag.enum_values {
                    Some(evs) => match spec_map_get(evs, spec_upper(value)) {
                        Some(code) => code,
                        None => value,
                    },
                    None => if key == "BodyLength"@ {
                        "#"@
                    } else {
                        value
                    },
                };
                let payload = if key == "SendingTime"@ {
                    ts
                } else if key == "MsgSeqNum"@ {
                    spec_digits(seq_num as nat)
                } else {
                    tv
                };
                Some(tag.number + "="@ + payload)
            }
        },
    }
}

/// The octet count BodyLength must hold: the bytes of every emitted field
/// except BeginString and BodyLength, plus one per field for its separator.
pub open spec fn counted_bytes(
    entries: Seq<(Seq<char>, Seq<char>)>,
    tags: Seq<(Seq<char>, TagView)>,
    seq_num: u64,
    ts: Seq<char>,
) -> nat
    decreases entries.len(),
{
    if entries.len() == 0 {
        0
    } else {
        let here: nat = match field_text(entries[0].0, entries[0].1, tags, seq_num, ts) {
            Some(t) => if entries[0].0 != "BeginString"@ && entries[0].0 != "BodyLength"@ {
                byte_len(t) + 1
            } else {
                0
            },
            None => 0,
        };
        here + counted_bytes(entries.drop_first(), tags, seq_num, ts)
    }
}

/// BodyLength correctness: as long as the total does not overflow the
/// counter, the length the encoder accumulates (and back-fills) is exactly
/// the octet count of the emitted fields other than BeginString and
/// BodyLength, each counted with its trailing separator.
pub proof fn lemma_body_length_correct(
    entries: Seq<(Seq<char>, Seq<char>)>,
    st: EncState,
    tags: Seq<(Seq<char>, TagView)>,
    seq_num: u64,
    ts: Seq<char>,
)
    requires
        st.body_len + counted_bytes(entries, tags, seq_num, ts) <= u64::MAX,
    ensures
        enc_fold(entries, st, tags, seq_num, ts).body_len == st.body_len + counted_bytes(
            entries,
            tags,
            seq_num,
            ts,
        ),
        crate::numbers::digits_val(
            spec_digits(enc_fold(entries, st, tags, seq_num, ts).body_len as nat),
        ) == enc_fold(entries, st, tags, seq_num, ts).body_len,
    decreases entries.len(),
{
    if entries.len() > 0 {
        let st2 = enc_field(st, entries[0].0, entries[0].1, tags, seq_num, ts);
        lemma_body_length_correct(entries.drop_first(), st2, tags, seq_num, ts);
    }
    crate::sequence::lemma_digits_val_of_digits(
        enc_fold(entries, st, tags, seq_num, ts).body_len as nat,
    );
}


/// The payload the encoder emits for a field outside the specially
/// handled names: the enum code of its case-folded value where the
/// dictionary carries an enum table, the value itself otherwise.
pub open spec fn rt_payload(
    key: Seq<char>,
    value: Seq<char>,
    name_tags: Seq<(Seq<char>, TagView)>,
) -> Seq<char> {
    let def = spec_map_get(name_tags, key)->0;
    match def.enum_values {
        Some(evs) => match spec_map_get(evs, spec_upper(value)) {
            Some(code) => code,
            None => value,
        },
        None => value,
    }
}

/// Codec round trip, one field at a time: for a round-trippable entry the
/// encoder emits `number=payload`, and decoding that text through the
/// tag-number index records exactly the same name and value (folding an
/// enum code back to its description where the tables carry one), naming
/// the message when the field is `MsgType`.
pub proof fn lemma_field_round_trip(
    st: DecodeState,
    key: Seq<char>,
    value: Seq<char>,
    name_tags: Seq<(Seq<char>, TagView)>,
    number_tags: Seq<(u64, TagView)>,
    seq_num: u64,
    ts: Seq<char>,
)
    requires
        rt_entry_ok(key, value, name_tags, number_tags),
    ensures
        ({
            let def = spec_map_get(name_tags, key)->0;
            let payload = rt_payload(key, value, name_tags);
            &&& field_text(key, value, name_tags, seq_num, ts) == Some(
                def.number + "="@ + payload,
            )
            &&& decode_field(st, def.number + "="@ + payload, number_tags) == (DecodeState {
                msgtype: if key == "MsgType"@ {
                    value
                } else {
                    st.msgtype
                },
                fields: spec_map_or_insert(st.fields, key, value),
            })
        }),
{
    reveal_strlit("=");
    assert("="@ =~= seq!['=']);
    let def = spec_map_get(name_tags, key)->0;
    let t = spec_parse_u64(def.number)->0;
    let ndef = spec_int_get(number_tags, t)->0;
    let payload = rt_payload(key, value, name_tags);
    let f = def.number + "="@ + payload;
    assert(field_text(key, value, name_tags, seq_num, ts) == Some(f));
    assert(forall|j: int|
        0 <= j < def.number.len() ==> crate::numbers::is_digit(#[trigger] def.number[j]));
    assert(forall|j: int| 0 <= j < def.number.len() ==> def.number[j] != '=');
    crate::strings::lemma_split_two(def.number, '=', payload);
    assert(f =~= def.number + seq!['='] + payload);
    assert(spec_split(f, '=') == seq![def.number, payload]);
    assert(spec_split(f, '=').len() == 2);
    assert(spec_split(f, '=')[0] == def.number);
    assert(spec_split(f, '=')[1] == payload);
    assert(decode_field(st, f, number_tags) =~= (DecodeState {
        msgtype: if key == "MsgType"@ {
            value
        } else {
            st.msgtype
        },
        fields: spec_map_or_insert(st.fields, key, value),
    }));
}

/// Decoding one more segment at the end folds on one more field.
pub proof fn lemma_decode_fold_snoc(
    parts: Seq<Seq<char>>,
    y: Seq<char>,
    st: DecodeState,
    tags: Seq<(u64, TagView)>,
)
    ensures
        decode_fold(parts.push(y), st, tags) == decode_field(decode_fold(parts, st, tags), y, tags),
    decreases parts.len(),
{
    if parts.len() == 0 {
        assert(parts.push(y)[0] == y);
        assert(parts.push(y).drop_first() =~= Seq::<Seq<char>>::empty());
        assert(decode_fold(parts, st, tags) == st);
        assert(decode_fold(parts.push(y), st, tags) == decode_fold(
            parts.push(y).drop_first(),
            decode_field(st, y, tags),
            tags,
        ));
        assert(decode_fold(Seq::<Seq<char>>::empty(), decode_field(st, y, tags), tags)
            == decode_field(st, y, tags));
    } else {
        assert(parts.push(y)[0] == parts[0]);
        assert(parts.push(y).drop_first() =~= parts.drop_first().push(y));
        lemma_decode_fold_snoc(parts.drop_first(), y, decode_field(st, parts[0], tags), tags);
    }
}

/// A field-map entry the codec carries through a full round trip: a name
/// the dictionary knows, whose tag number indexes the same name; either
/// neither index carries an enum table, or both do and decoding the
/// emitted code gives the value back; the emitted payload avoids the
/// structural characters; and the name is none of the specially framed
/// ones (`MsgType` itself rides along and names the message, so it must
/// carry its enum tables).
pub open spec fn rt_entry_ok(
    key: Seq<char>,
    value: Seq<char>,
    name_tags: Seq<(Seq<char>, TagView)>,
    number_tags: Seq<(u64, TagView)>,
) -> bool {
    &&& spec_map_get(name_tags, key) is Some
    &&& ({
        let def = spec_map_get(name_tags, key)->0;
        &&& spec_parse_u64(def.number) is Some
        &&& spec_parse_u64(def.number)->0 <= u32::MAX as u64
        &&& spec_int_get(number_tags, spec_parse_u64(def.number)->0) is Some
        &&& ({
            let ndef = spec_int_get(number_tags, spec_parse_u64(def.number)->0)->0;
            &&& ndef.name == key
            &&& (match (def.enum_values, ndef.enum_values) {
                (None, None) => key != "MsgType"@,
                (Some(_), Some(nd)) => spec_map_get(nd, rt_payload(key, value, name_tags))
                    == Some(value),
                _ => false,
            })
        })
    })
    &&& key != "BodyLength"@ && key != "SendingTime"@ && key != "MsgSeqNum"@ && key
        != "CheckSum"@ && key != "BeginString"@
    &&& (forall|j: int|
        0 <= j < rt_payload(key, value, name_tags).len()
            ==> #[trigger] rt_payload(key, value, name_tags)[j] != '='
            && rt_payload(key, value, name_tags)[j] != '|'
            && rt_payload(key, value, name_tags)[j] != '#'
            && rt_payload(key, value, name_tags)[j] != '\x01')
}

/// The decoder state after recording each entry in order: a `MsgType`
/// entry also names the message.
pub open spec fn rt_apply(st: DecodeState, entries: Seq<(Seq<char>, Seq<char>)>) -> DecodeState
    decreases entries.len(),
{
    if entries.len() == 0 {
        st
    } else {
        rt_apply(
            DecodeState {
                msgtype: if entries[0].0 == "MsgType"@ {
                    entries[0].1
                } else {
                    st.msgtype
                },
                fields: spec_map_or_insert(st.fields, entries[0].0, entries[0].1),
            },
            entries.drop_first(),
        )
    }
}

/// Codec round trip over a whole body: splitting and decoding the text the
/// field-map encoder builds from round-trippable entries records exactly
/// those entries, in order, on top of what the body so far decodes to.
pub proof fn lemma_round_trip_fold(
    entries: Seq<(Seq<char>, Seq<char>)>,
    enc_st: EncState,
    dec_st: DecodeState,
    name_tags: Seq<(Seq<char>, TagView)>,
    number_tags: Seq<(u64, TagView)>,
    seq_num: u64,
    ts: Seq<char>,
)
    requires
        enc_st.body.len() > 0,
        forall|i: int|
            0 <= i < entries.len() ==> rt_entry_ok(
                (#[trigger] entries[i]).0,
                entries[i].1,
                name_tags,
                number_tags,
            ),
    ensures
        decode_fold(
            spec_split(enc_fold(entries, enc_st, name_tags, seq_num, ts).body, '|'),
            dec_st,
            number_tags,
        ) == rt_apply(
            decode_fold(spec_split(enc_st.body, '|'), dec_st, number_tags),
            entries,
        ),
    decreases entries.len(),
{
    if entries.len() > 0 {
        let key = entries[0].0;
        let value = entries[0].1;
        assert(rt_entry_ok(key, value, name_tags, number_tags));
        let def = spec_map_get(name_tags, key)->0;
        let payload = rt_payload(key, value, name_tags);
        let st0 = decode_fold(spec_split(enc_st.body, '|'), dec_st, number_tags);
        lemma_field_round_trip(st0, key, value, name_tags, number_tags, seq_num, ts);
        let ftext = def.number + "="@ + payload;
        let enc_st2 = enc_field(enc_st, key, value, name_tags, seq_num, ts);
        assert(enc_st2.body == enc_st.body + "|"@ + ftext);
        reveal_strlit("|");
        assert("|"@ =~= seq!['|']);
        assert(enc_st.body + "|"@ + ftext =~= enc_st.body + seq!['|'] + ftext);
        assert(forall|j: int|
            0 <= j < def.number.len() ==> crate::numbers::is_digit(#[trigger] def.number[j]));
        assert(forall|j: int| 0 <= j < ftext.len() ==> ftext[j] != '|') by {
            reveal_strlit("=");
            assert("="@ =~= seq!['=']);
            assert(forall|j: int|
                0 <= j < def.number.len() ==> #[trigger] ftext[j] == def.number[j]);
            assert(ftext[def.number.len() as int] == '=');
            assert(forall|j: int|
                def.number.len() + 1 <= j < ftext.len() ==> #[trigger] ftext[j] == payload[j
                    - def.number.len() - 1]);
        }
        crate::strings::lemma_split_snoc(enc_st.body, '|', ftext);
        assert(spec_split(enc_st2.body, '|') == spec_split(enc_st.body, '|').push(ftext));
        lemma_decode_fold_snoc(spec_split(enc_st.body, '|'), ftext, dec_st, number_tags);
        assert(decode_fold(spec_split(enc_st2.body, '|'), dec_st, number_tags)
            == decode_field(st0, ftext, number_tags));
        assert(decode_field(st0, ftext, number_tags) == (DecodeState {
            msgtype: if key == "MsgType"@ {
                value
            } else {
                st0.msgtype
            },
            fields: spec_map_or_insert(st0.fields, key, value),
        }));
        assert(enc_st2.body.len() > 0);
        assert(forall|i: int|
            0 <= i < entries.drop_first().len() ==> (#[trigger] entries.drop_first()[i])
                == entries[i + 1]);
        lemma_round_trip_fold(
            entries.drop_first(),
            enc_st2,
            dec_st,
            name_tags,
            number_tags,
            seq_num,
            ts,
        );
        assert(enc_fold(entries, enc_st, name_tags, seq_num, ts) == enc_fold(
            entries.drop_first(),
            enc_st2,
            name_tags,
            seq_num,
            ts,
        ));
    }
}


/// No character of the encoded body is `c`, for the placeholder and SOH
/// characters a round-trippable body must avoid.
pub proof fn lemma_enc_fold_char_free(
    entries: Seq<(Seq<char>, Seq<char>)>,
    enc_st: EncState,
    c: char,
    name_tags: Seq<(Seq<char>, TagView)>,
    number_tags: Seq<(u64, TagView)>,
    seq_num: u64,
    ts: Seq<char>,
)
    requires
        c == '#' || c == '\x01',
        forall|j: int| 0 <= j < enc_st.body.len() ==> enc_st.body[j] != c,
        forall|i: int|
            0 <= i < entries.len() ==> rt_entry_ok(
                (#[trigger] entries[i]).0,
                entries[i].1,
                name_tags,
                number_tags,
            ),
    ensures
        forall|j: int|
            0 <= j < enc_fold(entries, enc_st, name_tags, seq_num, ts).body.len() ==> enc_fold(
                entries,
                enc_st,
                name_tags,
                seq_num,
                ts,
            ).body[j] != c,
    decreases entries.len(),
{
    reveal_strlit("=");
    reveal_strlit("|");
    assert("="@ =~= seq!['=']);
    assert("|"@ =~= seq!['|']);
    if entries.len() == 0 {
        assert(enc_fold(entries, enc_st, name_tags, seq_num, ts) == enc_st);
    } else {
        let key = entries[0].0;
        let value = entries[0].1;
        assert(rt_entry_ok(key, value, name_tags, number_tags));
        let def = spec_map_get(name_tags, key)->0;
        let payload = rt_payload(key, value, name_tags);
        let enc_st2 = enc_field(enc_st, key, value, name_tags, seq_num, ts);
        let ftext = def.number + "="@ + payload;
        assert(forall|j: int|
            0 <= j < def.number.len() ==> crate::numbers::is_digit(#[trigger] def.number[j]));
        assert(!crate::numbers::is_digit(c));
        assert(forall|j: int| 0 <= j < ftext.len() ==> ftext[j] != c) by {
            assert(forall|j: int|
                0 <= j < def.number.len() ==> #[trigger] ftext[j] == def.number[j]);
            assert(ftext[def.number.len() as int] == '=');
            assert(forall|j: int|
                def.number.len() + 1 <= j < ftext.len() ==> #[trigger] ftext[j] == payload[j
                    - def.number.len() - 1]);
        }
        assert(forall|j: int| 0 <= j < enc_st2.body.len() ==> enc_st2.body[j] != c) by {
            if enc_st.body.len() == 0 {
                assert(enc_st2.body == ftext);
            } else {
                assert(enc_st2.body == enc_st.body + "|"@ + ftext);
            }
        }
        assert(forall|i: int|
            0 <= i < entries.drop_first().len() ==> (#[trigger] entries.drop_first()[i])
                == entries[i + 1]);
        lemma_enc_fold_char_free(
            entries.drop_first(),
            enc_st2,
            c,
            name_tags,
            number_tags,
            seq_num,
            ts,
        );
        assert(enc_fold(entries, enc_st, name_tags, seq_num, ts) == enc_fold(
            entries.drop_first(),
            enc_st2,
            name_tags,
            seq_num,
            ts,
        ));
    }
}

/// Replacing a character that does not occur changes nothing.
pub proof fn lemma_replace_absent(s: Seq<char>, from: char, to: char)
    requires
        forall|j: int| 0 <= j < s.len() ==> s[j] != from,
    ensures
        spec_replace(s, from, to) == s,
{
    assert(spec_replace(s, from, to) =~= s);
}

/// Back-filling a placeholder that does not occur changes nothing.
pub proof fn lemma_replace_hash_absent(s: Seq<char>, rep: Seq<char>)
    requires
        forall|j: int| 0 <= j < s.len() ==> s[j] != '#',
    ensures
        replace_hash(s, rep) == s,
    decreases s.len(),
{
    if s.len() > 0 {
        assert(forall|j: int| 0 <= j < s.drop_first().len() ==> s.drop_first()[j] == s[j + 1]);
        lemma_replace_hash_absent(s.drop_first(), rep);
        assert(replace_hash(s, rep) =~= s);
    }
}

/// Codec round trip: a message encoded from round-trippable entries
/// decodes, through the tag-number index, to exactly those entries in
/// order — enum codes folded back to their descriptions, a `MsgType`
/// entry naming the message — followed only by the CheckSum field the
/// encoder appended. The specially stamped `SendingTime` and `MsgSeqNum`
/// and the framing `BeginString`/`BodyLength` fields stay outside the
/// statement.
pub proof fn lemma_codec_round_trip(
    entries: Seq<(Seq<char>, Seq<char>)>,
    name_tags: Seq<(Seq<char>, TagView)>,
    number_tags: Seq<(u64, TagView)>,
    seq_num: u64,
    ts: Seq<char>,
)
    requires
        entries.len() > 0,
        forall|i: int|
            0 <= i < entries.len() ==> rt_entry_ok(
                (#[trigger] entries[i]).0,
                entries[i].1,
                name_tags,
                number_tags,
            ),
        spec_int_get(number_tags, 10) is Some,
        spec_int_get(number_tags, 10)->0.name == "CheckSum"@,
        spec_int_get(number_tags, 10)->0.enum_values is None,
    ensures
        ({
            let st = enc_fold(
                entries,
                EncState { body: Seq::empty(), body_len: 0 },
                name_tags,
                seq_num,
                ts,
            );
            let msg = finish_message(st.body, st.body_len);
            let dec = spec_decode(msg, number_tags);
            let plain = rt_apply(
                DecodeState { msgtype: Seq::empty(), fields: Seq::empty() },
                entries,
            );
            &&& dec.msgtype == plain.msgtype
            &&& dec.fields == spec_map_or_insert(
                plain.fields,
                "CheckSum"@,
                spec_pad3(char_byte_sum(spec_replace(st.body, '|', '\x01')) % 256),
            )
        }),
{
    reveal_strlit("=");
    reveal_strlit("|");
    reveal_strlit("|10=");
    reveal_strlit("10");
    reveal_strlit("");
    assert("="@ =~= seq!['=']);
    assert("|"@ =~= seq!['|']);
    assert("|10="@ =~= seq!['|', '1', '0', '=']);
    let st0 = EncState { body: Seq::empty(), body_len: 0 };
    let dec0 = DecodeState { msgtype: Seq::empty(), fields: Seq::empty() };
    let key = entries[0].0;
    let value = entries[0].1;
    assert(rt_entry_ok(key, value, name_tags, number_tags));
    let def = spec_map_get(name_tags, key)->0;
    let payload = rt_payload(key, value, name_tags);
    let ftext = def.number + "="@ + payload;
    let enc_st1 = enc_field(st0, key, value, name_tags, seq_num, ts);
    assert(enc_st1.body == ftext);
    assert(forall|j: int|
        0 <= j < def.number.len() ==> crate::numbers::is_digit(#[trigger] def.number[j]));
    assert(forall|j: int| 0 <= j < ftext.len() ==> ftext[j] != '|') by {
        assert(forall|j: int|
            0 <= j < def.number.len() ==> #[trigger] ftext[j] == def.number[j]);
        assert(ftext[def.number.len() as int] == '=');
        assert(forall|j: int|
            def.number.len() + 1 <= j < ftext.len() ==> #[trigger] ftext[j] == payload[j
                - def.number.len() - 1]);
    }
    crate::strings::lemma_split_rec_no_sep(ftext, '|', Seq::empty(), Seq::empty());
    assert(Seq::<char>::empty() + ftext =~= ftext);
    assert(spec_split(ftext, '|') =~= seq![ftext]);
    lemma_field_round_trip(dec0, key, value, name_tags, number_tags, seq_num, ts);
    assert(decode_fold(spec_split(enc_st1.body, '|'), dec0, number_tags) == decode_field(
        dec0,
        ftext,
        number_tags,
    )) by {
        assert(spec_split(ftext, '|') == seq![ftext]);
        assert(seq![ftext][0] == ftext);
        assert(seq![ftext].drop_first() =~= Seq::<Seq<char>>::empty());
        assert(decode_fold(seq![ftext], dec0, number_tags) == decode_fold(
            seq![ftext].drop_first(),
            decode_field(dec0, ftext, number_tags),
            number_tags,
        ));
        assert(decode_fold(Seq::<Seq<char>>::empty(), decode_field(dec0, ftext, number_tags), number_tags)
            == decode_field(dec0, ftext, number_tags));
    }
    let dec1 = DecodeState {
        msgtype: if key == "MsgType"@ {
            value
        } else {
            dec0.msgtype
        },
        fields: spec_map_or_insert(dec0.fields, key, value),
    };
    assert(decode_field(dec0, ftext, number_tags) == dec1);
    assert(forall|i: int|
        0 <= i < entries.drop_first().len() ==> (#[trigger] entries.drop_first()[i]) == entries[i
            + 1]);
    lemma_round_trip_fold(
        entries.drop_first(),
        enc_st1,
        dec0,
        name_tags,
        number_tags,
        seq_num,
        ts,
    );
    let st = enc_fold(entries, st0, name_tags, seq_num, ts);
    assert(st == enc_fold(entries.drop_first(), enc_st1, name_tags, seq_num, ts));
    let plain = rt_apply(dec0, entries);
    assert(decode_fold(spec_split(st.body, '|'), dec0, number_tags) == rt_apply(
        dec1,
        entries.drop_first(),
    ));
    assert(rt_apply(dec1, entries.drop_first()) == plain);
    // The body holds no placeholder and no SOH, so back-fill and the wire
    // swap leave it unchanged.
    lemma_enc_fold_char_free(entries, st0, '#', name_tags, number_tags, seq_num, ts);
    lemma_enc_fold_char_free(entries, st0, '\x01', name_tags, number_tags, seq_num, ts);
    lemma_replace_hash_absent(st.body, spec_digits(st.body_len as nat));
    let filled = replace_hash(st.body, spec_digits(st.body_len as nat));
    assert(filled == st.body);
    let cs = char_byte_sum(spec_replace(filled, '|', '\x01')) % 256;
    let pad = spec_pad3(cs);
    let msg = finish_message(st.body, st.body_len);
    assert(msg == st.body + "|10="@ + pad + "|"@);
    crate::numbers::lemma_pad3_val(cs as nat);
    // The full message still holds no SOH, so decoding sees it unchanged.
    assert(forall|j: int| 0 <= j < msg.len() ==> msg[j] != '\x01') by {
        assert(forall|j: int|
            0 <= j < st.body.len() ==> #[trigger] msg[j] == st.body[j]);
        assert(forall|j: int|
            st.body.len() <= j < st.body.len() + 4 ==> #[trigger] msg[j] == "|10="@[j
                - st.body.len()]);
        assert(forall|j: int|
            st.body.len() + 4 <= j < st.body.len() + 7 ==> #[trigger] msg[j] == pad[j
                - st.body.len() - 4]);
        assert(msg[st.body.len() as int + 7] == '|');
        assert(msg.len() == st.body.len() + 8);
    }
    lemma_replace_absent(msg, '\x01', '|');
    // The trailer splits off as the CheckSum field and a final empty
    // segment, which the decoder skips.
    let trailer = seq!['1', '0', '='] + pad;
    assert(forall|j: int| 0 <= j < trailer.len() ==> trailer[j] != '|') by {
        assert(trailer[0] == '1' && trailer[1] == '0' && trailer[2] == '=');
        assert(forall|j: int| 3 <= j < trailer.len() ==> #[trigger] trailer[j] == pad[j - 3]);
    }
    assert(msg =~= st.body + seq!['|'] + trailer + seq!['|'] + Seq::<char>::empty());
    crate::strings::lemma_split_snoc(st.body + seq!['|'] + trailer, '|', Seq::empty());
    crate::strings::lemma_split_snoc(st.body, '|', trailer);
    assert(spec_split(msg, '|') == spec_split(st.body, '|').push(trailer).push(
        Seq::<char>::empty(),
    ));
    lemma_decode_fold_snoc(
        spec_split(st.body, '|').push(trailer),
        Seq::empty(),
        dec0,
        number_tags,
    );
    lemma_decode_fold_snoc(spec_split(st.body, '|'), trailer, dec0, number_tags);
    // The CheckSum field decodes under its dictionary name.
    let csdef = spec_int_get(number_tags, 10)->0;
    assert(forall|j: int| 0 <= j < pad.len() ==> crate::numbers::is_digit(#[trigger] pad[j]));
    crate::strings::lemma_split_two(seq!['1', '0'], '=', pad);
    assert(trailer =~= seq!['1', '0'] + seq!['='] + pad);
    assert(spec_split(trailer, '=') == seq![seq!['1', '0'], pad]);
    assert(spec_parse_u64(seq!['1', '0']) == Some(10u64)) by {
        let d = seq!['1', '0'];
        assert(crate::numbers::is_digit(d[0]) && crate::numbers::is_digit(d[1]));
        assert(d.drop_last() =~= seq!['1']);
        assert(seq!['1'].drop_last() =~= Seq::<char>::empty());
        assert(crate::numbers::digits_val(Seq::<char>::empty()) == 0);
        assert(crate::numbers::digit_val('1') == 1 && crate::numbers::digit_val('0') == 0);
        assert(crate::numbers::digits_val(seq!['1']) == 1);
        assert(crate::numbers::digits_val(d) == 10);
    }
    let dec_plain = decode_fold(spec_split(st.body, '|'), dec0, number_tags);
    let after_cs = decode_field(dec_plain, trailer, number_tags);
    assert(after_cs == (DecodeState {
        msgtype: dec_plain.msgtype,
        fields: spec_map_or_insert(dec_plain.fields, "CheckSum"@, pad),
    })) by {
        reveal_strlit("MsgType");
        reveal_strlit("CheckSum");
        assert("CheckSum"@.len() == 8 && "MsgType"@.len() == 7);
        assert(csdef.name != "MsgType"@);
        assert(spec_split(trailer, '=').len() == 2);
        assert(spec_split(trailer, '=')[0] == seq!['1', '0']);
        assert(spec_split(trailer, '=')[1] == pad);
    }
    // The final empty segment is skipped.
    assert(decode_field(after_cs, Seq::empty(), number_tags) == after_cs) by {
        crate::strings::lemma_split_rec_no_sep(Seq::empty(), '=', Seq::empty(), Seq::empty());
        assert(spec_split(Seq::<char>::empty(), '=').len() == 1);
    }
}


/// One display row of a message listing: tag name, tag number, value, and
/// the enum description of the value, if the dictionary has one; a segment
/// that is not exactly `tag=value` yields no row.
pub open spec fn row_of(f: Seq<char>, tags: Seq<(u64, TagView)>) -> Option<
    (Seq<char>, Seq<char>, Seq<char>, Seq<char>),
> {
    let parts = spec_split(f, '=');
    if parts.len() != 2 {
        None
    } else {
        let value = parts[1];
        match spec_parse_u64(parts[0]) {
            Some(t) => if t <= u32::MAX as u64 {
                match spec_int_get(tags, t) {
                    Some(tag) => Some(
                        (
                            tag.name,
                            tag.number,
                            value,
                            match tag.enum_values {
                                Some(evs) => match spec_map_get(evs, value) {
                                    Some(d) => d,
                                    None => Seq::empty(),
                                },
                                None => Seq::empty(),
                            },
                        ),
                    ),
                    None => Some(("Unknown tag"@, parts[0], value, Seq::empty())),
                }
            } else {
                Some(("Invalid tag number"@, parts[0], value, Seq::empty()))
            },
            None => Some(("Invalid tag number"@, parts[0], value, Seq::empty())),
        }
    }
}

pub open spec fn rows_fold(parts: Seq<Seq<char>>, tags: Seq<(u64, TagView)>) -> Seq<
    (Seq<char>, Seq<char>, Seq<char>, Seq<char>),
>
    decreases parts.len(),
{
    if parts.len() == 0 {
        Seq::empty()
    } else {
        (match row_of(parts[0], tags) {
            Some(r) => seq![r],
            None => Seq::empty(),
        }) + rows_fold(parts.drop_first(), tags)
    }
}

/// Display rows at the view level.
pub open spec fn rows_view(rows: Seq<(String, String, String, String)>) -> Seq<
    (Seq<char>, Seq<char>, Seq<char>, Seq<char>),
> {
    rows.map_values(|r: (String, String, String, String)| (r.0@, r.1@, r.2@, r.3@))
}

/// The display rows of a raw message: SOH becomes `|`, the message splits
/// on `|`, and each `tag=value` segment becomes one row through the
/// dictionary.
#[verifier::loop_isolation(false)]
pub fn fix_message_rows(message: &str, tags_map: &IntMap<FixTag>) -> (r: Vec<
    (String, String, String, String),
>)
    ensures
        rows_view(r@) == rows_fold(
            spec_split(spec_replace(message@, '\x01', '|'), '|'),
            tags_map@,
        ),
{
    let ghost tags = tags_map@;
    let raw = str_to_chars(message);
    let modified = replace_chars(&raw, '\x01', '|');
    let parts = split_chars(&modified, '|');
    let ghost all_parts = spec_split(spec_replace(message@, '\x01', '|'), '|');
    let mut rows: Vec<(String, String, String, String)> = Vec::new();
    proof {
        assert(all_parts.subrange(0, all_parts.len() as int) == all_parts);
        assert(rows_view(rows@) =~= Seq::<(Seq<char>, Seq<char>, Seq<char>, Seq<char>)>::empty());
    }
    let mut i: usize = 0;
    while i < parts.len()
        invariant
            0 <= i <= parts.len(),
            rows_view(rows@) + rows_fold(
                all_parts.subrange(i as int, all_parts.len() as int),
                tags,
            ) == rows_fold(all_parts, tags),
        decreases parts.len() - i,
    {
        let ghost rest = all_parts.subrange(i as int, all_parts.len() as int);
        let ghost pre = rows_view(rows@);
        proof {
            assert(rest[0] == all_parts[i as int]);
            assert(parts.deep_view()[i as int] == parts@[i as int]@);
            assert(rest.drop_first() == all_parts.subrange(i + 1, all_parts.len() as int));
        }
        let field = &parts[i];
        let fparts = split_chars(field, '=');
        proof {
            assert(fparts.deep_view() == spec_split(field@, '='));
            if fparts.deep_view().len() == 2 {
                assert(fparts@[0]@ == spec_split(field@, '=')[0]);
                assert(fparts@[1]@ == spec_split(field@, '=')[1]);
            }
        }
        if fparts.len() == 2 {
            let value = chars_to_string(&fparts[1]);
            let tag_text = chars_to_string(&fparts[0]);
            let row: (String, String, String, String) = match parse_u64(&fparts[0]) {
                Some(t) if t <= 0xFFFF_FFFFu64 => {
                    match tags_map.get(t) {
                        Some(tag_definition) => {
                            let description = match &tag_definition.enum_values {
                                Some(enum_values) => match enum_values.get(value.as_str()) {
                                    Some(d) => d.clone(),
                                    None => String::new(),
                                },
                                None => String::new(),
                            };
                            (
                                tag_definition.name.clone(),
                                tag_definition.number.clone(),
                                value,
                                description,
                            )
                        },
                        None => (String::from_str("Unknown tag"), tag_text, value, String::new()),
                    }
                },
                _ => (String::from_str("Invalid tag number"), tag_text, value, String::new()),
            };
            rows.push(row);
            proof {
                assert(rows_view(rows@) =~= pre + seq![
                    (row.0@, row.1@, row.2@, row.3@),
                ]);
                assert(row_of(rest[0], tags) == Some((row.0@, row.1@, row.2@, row.3@)));
                assert(pre + (seq![(row.0@, row.1@, row.2@, row.3@)] + rows_fold(
                    rest.drop_first(),
                    tags,
                )) =~= (pre + seq![(row.0@, row.1@, row.2@, row.3@)]) + rows_fold(
                    rest.drop_first(),
                    tags,
                ));
            }
        } else {
            proof {
                assert(row_of(rest[0], tags) is None);
                assert(pre + (Seq::<(Seq<char>, Seq<char>, Seq<char>, Seq<char>)>::empty()
                    + rows_fold(rest.drop_first(), tags)) =~= pre + rows_fold(
                    rest.drop_first(),
                    tags,
                ));
            }
        }
        i = i + 1;
    }
    proof {
        assert(all_parts.subrange(i as int, all_parts.len() as int).len() == 0);
        assert(rows_view(rows@) + Seq::<(Seq<char>, Seq<char>, Seq<char>, Seq<char>)>::empty()
            =~= rows_view(rows@));
    }
    rows
}

} // verus!






