//! Outbox payloads: the serialized snapshot of the entity stored alongside
//! each event.  A person payload is a JSON object of all the person's
//! fields at the moment of the mutation; a deletion payload carries the
//! identifier alone, since no post-state exists.

use vstd::prelude::*;

use crate::json::all_ascii;
use crate::json::ascii_chars;
use crate::json::dec_bytes;
use crate::json::dec_bytes_i64;
use crate::json::json_null;
use crate::json::json_string;
use crate::json::lemma_all_ascii_concat;
use crate::json::lemma_dec_bytes_ascii;
use crate::json::lemma_dec_bytes_i64_ascii;
use crate::json::lemma_json_string_ascii;
use crate::json::ascii_to_string;
use crate::json::push_json_i64;
use crate::json::push_json_null;
use crate::json::push_json_string;
use crate::json::push_json_u128;
use crate::person_db::PersonRecord;
use crate::person_db::PersonView;

verus! {

/// An optional string field: `null` or a JSON string.
pub open spec fn json_opt_string(o: Option<Seq<char>>) -> Seq<u8> {
    match o {
        None => json_null(),
        Some(s) => json_string(s),
    }
}

/// An optional timestamp field: `null` or a JSON number.
pub open spec fn json_opt_i64(o: Option<i64>) -> Seq<u8> {
    match o {
        None => json_null(),
        Some(t) => dec_bytes_i64(t as int),
    }
}

/// The JSON object serializing a person row.
pub open spec fn person_payload_bytes(p: PersonView) -> Seq<u8> {
    seq![0x7bu8] + json_string("id"@) + seq![0x3au8] + dec_bytes(p.id) + seq![0x2cu8]
        + json_string("first_name"@) + seq![0x3au8] + json_string(p.first_name) + seq![0x2cu8]
        + json_string("middle_name"@) + seq![0x3au8] + json_opt_string(p.middle_name)
        + seq![0x2cu8] + json_string("last_name"@) + seq![0x3au8] + json_string(p.last_name)
        + seq![0x2cu8] + json_string("suffix"@) + seq![0x3au8] + json_opt_string(p.suffix)
        + seq![0x2cu8] + json_string("created_date_time"@) + seq![0x3au8] + dec_bytes_i64(
        p.created_date_time as int,
    ) + seq![0x2cu8] + json_string("updated_date_time"@) + seq![0x3au8] + json_opt_i64(
        p.updated_date_time,
    ) + seq![0x7du8]
}

/// The characters of a person payload.
pub open spec fn person_payload_chars(p: PersonView) -> Seq<char> {
    ascii_chars(person_payload_bytes(p))
}

/// The JSON object serializing a deletion: the removed id alone.
pub open spec fn delete_payload_bytes(id: u128) -> Seq<u8> {
    seq![0x7bu8] + json_string("id"@) + seq![0x3au8] + dec_bytes(id) + seq![0x7du8]
}

/// The characters of a deletion payload.
pub open spec fn delete_payload_chars(id: u128) -> Seq<char> {
    ascii_chars(delete_payload_bytes(id))
}

proof fn lemma_json_opt_string_ascii(o: Option<Seq<char>>)
    ensures
        all_ascii(json_opt_string(o)),
{
    match o {
        None => {},
        Some(s) => lemma_json_string_ascii(s),
    }
}

proof fn lemma_json_opt_i64_ascii(o: Option<i64>)
    ensures
        all_ascii(json_opt_i64(o)),
{
    match o {
        None => {},
        Some(t) => lemma_dec_bytes_i64_ascii(t as int),
    }
}

proof fn lemma_person_payload_ascii(p: PersonView)
    ensures
        all_ascii(person_payload_bytes(p)),
{
    lemma_json_string_ascii("id"@);
    lemma_json_string_ascii("first_name"@);
    lemma_json_string_ascii("middle_name"@);
    lemma_json_string_ascii("last_name"@);
    lemma_json_string_ascii("suffix"@);
    lemma_json_string_ascii("created_date_time"@);
    lemma_json_string_ascii("updated_date_time"@);
    lemma_json_string_ascii(p.first_name);
    lemma_json_string_ascii(p.last_name);
    lemma_json_opt_string_ascii(p.middle_name);
    lemma_json_opt_string_ascii(p.suffix);
    lemma_dec_bytes_ascii(p.id);
    lemma_dec_bytes_i64_ascii(p.created_date_time as int);
    lemma_json_opt_i64_ascii(p.updated_date_time);
    assert forall|i: int|
        0 <= i < person_payload_bytes(p).len() implies person_payload_bytes(p)[i] < 0x80 by {
        lemma_concat_chain_ascii(p);
    }
}

/// Concatenating ASCII segments stays ASCII, applied to the payload chain.
proof fn lemma_concat_chain_ascii(p: PersonView)
    requires
        all_ascii(json_string("id"@)),
        all_ascii(json_string("first_name"@)),
        all_ascii(json_string("middle_name"@)),
        all_ascii(json_string("last_name"@)),
        all_ascii(json_string("suffix"@)),
        all_ascii(json_string("created_date_time"@)),
        all_ascii(json_string("updated_date_time"@)),
        all_ascii(json_string(p.first_name)),
        all_ascii(json_string(p.last_name)),
        all_ascii(json_opt_string(p.middle_name)),
        all_ascii(json_opt_string(p.suffix)),
        all_ascii(dec_bytes(p.id)),
        all_ascii(dec_bytes_i64(p.created_date_time as int)),
        all_ascii(json_opt_i64(p.updated_date_time)),
    ensures
        all_ascii(person_payload_bytes(p)),
{
    let a1 = seq![0x7bu8] + json_string("id"@);
    lemma_all_ascii_concat(seq![0x7bu8], json_string("id"@));
    let a2 = a1 + seq![0x3au8];
    lemma_all_ascii_concat(a1, seq![0x3au8]);
    let a3 = a2 + dec_bytes(p.id);
    lemma_all_ascii_concat(a2, dec_bytes(p.id));
    let a4 = a3 + seq![0x2cu8];
    lemma_all_ascii_concat(a3, seq![0x2cu8]);
    let a5 = a4 + json_string("first_name"@);
    lemma_all_ascii_concat(a4, json_string("first_name"@));
    let a6 = a5 + seq![0x3au8];
    lemma_all_ascii_concat(a5, seq![0x3au8]);
    let a7 = a6 + json_string(p.first_name);
    lemma_all_ascii_concat(a6, json_string(p.first_name));
    let a8 = a7 + seq![0x2cu8];
    lemma_all_ascii_concat(a7, seq![0x2cu8]);
    let a9 = a8 + json_string("middle_name"@);
    lemma_all_ascii_concat(a8, json_string("middle_name"@));
    let a10 = a9 + seq![0x3au8];
    lemma_all_ascii_concat(a9, seq![0x3au8]);
    let a11 = a10 + json_opt_string(p.middle_name);
    lemma_all_ascii_concat(a10, json_opt_string(p.middle_name));
    let a12 = a11 + seq![0x2cu8];
    lemma_all_ascii_concat(a11, seq![0x2cu8]);
    let a13 = a12 + json_string("last_name"@);
    lemma_all_ascii_concat(a12, json_string("last_name"@));
    let a14 = a13 + seq![0x3au8];
    lemma_all_ascii_concat(a13, seq![0x3au8]);
    let a15 = a14 + json_string(p.last_name);
    lemma_all_ascii_concat(a14, json_string(p.last_name));
    let a16 = a15 + seq![0x2cu8];
    lemma_all_ascii_concat(a15, seq![0x2cu8]);
    let a17 = a16 + json_string("suffix"@);
    lemma_all_ascii_concat(a16, json_string("suffix"@));
    let a18 = a17 + seq![0x3au8];
    lemma_all_ascii_concat(a17, seq![0x3au8]);
    let a19 = a18 + json_opt_string(p.suffix);
    lemma_all_ascii_concat(a18, json_opt_string(p.suffix));
    let a20 = a19 + seq![0x2cu8];
    lemma_all_ascii_concat(a19, seq![0x2cu8]);
    let a21 = a20 + json_string("created_date_time"@);
    lemma_all_ascii_concat(a20, json_string("created_date_time"@));
    let a22 = a21 + seq![0x3au8];
    lemma_all_ascii_concat(a21, seq![0x3au8]);
    let a23 = a22 + dec_bytes_i64(p.created_date_time as int);
    lemma_all_ascii_concat(a22, dec_bytes_i64(p.created_date_time as int));
    let a24 = a23 + seq![0x2cu8];
    lemma_all_ascii_concat(a23, seq![0x2cu8]);
    let a25 = a24 + json_string("updated_date_time"@);
    lemma_all_ascii_concat(a24, json_string("updated_date_time"@));
    let a26 = a25 + seq![0x3au8];
    lemma_all_ascii_concat(a25, seq![0x3au8]);
    let a27 = a26 + json_opt_i64(p.updated_date_time);
    lemma_all_ascii_concat(a26, json_opt_i64(p.updated_date_time));
    let a28 = a27 + seq![0x7du8];
    lemma_all_ascii_concat(a27, seq![0x7du8]);
    assert(person_payload_bytes(p) == a28);
}

fn push_opt_string(out: &mut Vec<u8>, o: &Option<String>)
    ensures
        final(out)@ == old(out)@ + json_opt_string(o.deep_view()),
{
    match o {
        None => push_json_null(out),
        Some(s) => push_json_string(out, s.as_str()),
    }
}

fn push_opt_i64(out: &mut Vec<u8>, o: &Option<i64>)
    ensures
        final(out)@ == old(out)@ + json_opt_i64(*o),
{
    match o {
        None => push_json_null(out),
        Some(t) => push_json_i64(out, *t),
    }
}

/// The serialized snapshot of a person row, as stored in an outbox event.
pub fn person_payload(p: &PersonRecord) -> (r: String)
    ensures
        r@ == person_payload_chars(p@),
{
    let mut v: Vec<u8> = Vec::new();
    v.push(0x7bu8);
    push_json_string(&mut v, "id");
    v.push(0x3au8);
    push_json_u128(&mut v, p.id);
    proof {
        assert(v@ =~= seq![0x7bu8] + json_string("id"@) + seq![0x3au8] + dec_bytes(p.id));
    }
    v.push(0x2cu8);
    push_json_string(&mut v, "first_name");
    v.push(0x3au8);
    push_json_string(&mut v, p.first_name.as_str());
    proof {
        assert(v@ =~= seq![0x7bu8] + json_string("id"@) + seq![0x3au8] + dec_bytes(p.id)
            + seq![0x2cu8] + json_string("first_name"@) + seq![0x3au8] + json_string(
            p@.first_name,
        ));
    }
    v.push(0x2cu8);
    push_json_string(&mut v, "middle_name");
    v.push(0x3au8);
    push_opt_string(&mut v, &p.middle_name);
    v.push(0x2cu8);
    push_json_string(&mut v, "last_name");
    v.push(0x3au8);
    push_json_string(&mut v, p.last_name.as_str());
    proof {
        assert(v@ =~= seq![0x7bu8] + json_string("id"@) + seq![0x3au8] + dec_bytes(p.id)
            + seq![0x2cu8] + json_string("first_name"@) + seq![0x3au8] + json_string(p@.first_name)
            + seq![0x2cu8] + json_string("middle_name"@) + seq![0x3au8] + json_opt_string(
            p@.middle_name,
        ) + seq![0x2cu8] + json_string("last_name"@) + seq![0x3au8] + json_string(p@.last_name));
    }
    v.push(0x2cu8);
    push_json_string(&mut v, "suffix");
    v.push(0x3au8);
    push_opt_string(&mut v, &p.suffix);
    v.push(0x2cu8);
    push_json_string(&mut v, "created_date_time");
    v.push(0x3au8);
    push_json_i64(&mut v, p.created_date_time);
    proof {
        assert(v@ =~= seq![0x7bu8] + json_string("id"@) + seq![0x3au8] + dec_bytes(p.id)
            + seq![0x2cu8] + json_string("first_name"@) + seq![0x3au8] + json_string(p@.first_name)
            + seq![0x2cu8] + json_string("middle_name"@) + seq![0x3au8] + json_opt_string(
            p@.middle_name,
        ) + seq![0x2cu8] + json_string("last_name"@) + seq![0x3au8] + json_string(p@.last_name)
            + seq![0x2cu8] + json_string("suffix"@) + seq![0x3au8] + json_opt_string(p@.suffix)
            + seq![0x2cu8] + json_string("created_date_time"@) + seq![0x3au8] + dec_bytes_i64(
            p@.created_date_time as int,
        ));
    }
    v.push(0x2cu8);
    push_json_string(&mut v, "updated_date_time");
    v.push(0x3au8);
    push_opt_i64(&mut v, &p.updated_date_time);
    v.push(0x7du8);
    proof {
        assert(v@ =~= person_payload_bytes(p@));
        lemma_person_payload_ascii(p@);
    }
    ascii_to_string(v)
}

/// The serialized form of a deletion: the removed id alone.
pub fn delete_payload(id: u128) -> (r: String)
    ensures
        r@ == delete_payload_chars(id),
{
    let mut v: Vec<u8> = Vec::new();
    v.push(0x7bu8);
    push_json_string(&mut v, "id");
    v.push(0x3au8);
    push_json_u128(&mut v, id);
    v.push(0x7du8);
    proof {
        assert(v@ =~= delete_payload_bytes(id));
        lemma_json_string_ascii("id"@);
        lemma_dec_bytes_ascii(id);
        let a1 = seq![0x7bu8] + json_string("id"@);
        lemma_all_ascii_concat(seq![0x7bu8], json_string("id"@));
        let a2 = a1 + seq![0x3au8];
        lemma_all_ascii_concat(a1, seq![0x3au8]);
        let a3 = a2 + dec_bytes(id);
        lemma_all_ascii_concat(a2, dec_bytes(id));
        let a4 = a3 + seq![0x7du8];
        lemma_all_ascii_concat(a3, seq![0x7du8]);
        assert(delete_payload_bytes(id) == a4);
    }
    ascii_to_string(v)
}

} // verus!
