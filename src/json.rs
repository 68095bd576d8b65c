use vstd::prelude::*;

verus! {

/// A legacy flat record as a list of (field name, string value) pairs; `None` stands for a
/// field whose value is not a JSON string.
pub open spec fn field_views(v: Seq<(String, Option<String>)>) -> Seq<
    (Seq<char>, Option<Seq<char>>),
> {
    v.map_values(
        |f: (String, Option<String>)|
            (
                f.0@,
                match f.1 {
                    Some(s) => Some(s@),
                    None => None,
                },
            ),
    )
}

pub open spec fn pair_views(v: Seq<(String, String)>) -> Seq<(Seq<char>, Seq<char>)> {
    v.map_values(|f: (String, String)| (f.0@, f.1@))
}

/// The fields of the JSON object written in `text`, or `None` when `text` is no JSON object.
pub uninterp spec fn json_object_fields(text: Seq<char>) -> Option<
    Seq<(Seq<char>, Option<Seq<char>>)>,
>;

/// The JSON text of an object with the given string fields.
pub uninterp spec fn json_object_text(fields: Seq<(Seq<char>, Seq<char>)>) -> Seq<char>;

/// The string value of the first field named `key`; `None` when there is no such field or
/// its value is not a string.
pub open spec fn field_str(fs: Seq<(Seq<char>, Option<Seq<char>>)>, key: Seq<char>) -> Option<
    Seq<char>,
>
    decreases fs.len(),
{
    if fs.len() == 0 {
        None
    } else if fs[0].0 == key {
        fs[0].1
    } else {
        field_str(fs.drop_first(), key)
    }
}

/// Relies on `serde_json::from_str` (into a map of `serde_json::Value`) to parse a legacy
/// payload, and on `serde_json::Value::as_str` to read each value as a string.
#[verifier::external_body]
pub(crate) fn parse_legacy_fields(data: &str) -> (r: Option<Vec<(String, Option<String>)>>)
    ensures
        match r {
            Some(v) => json_object_fields(data@) == Some(field_views(v@)),
            None => json_object_fields(data@) is None,
        },
{
    let map: std::collections::BTreeMap<String, serde_json::Value> = serde_json::from_str(
        data,
    ).ok()?;
    Some(map.into_iter().map(|(k, v)| (k, v.as_str().map(|s| s.to_string()))).collect())
}

/// Relies on `serde_json::Value::to_string` to write a legacy payload of string fields.
#[verifier::external_body]
pub(crate) fn legacy_fields_to_json(fields: &Vec<(String, String)>) -> (r: String)
    ensures
        r@ == json_object_text(pair_views(fields@)),
{
    let map: serde_json::Map<String, serde_json::Value> = fields.iter().map(
        |(k, v)| (k.clone(), serde_json::Value::String(v.clone())),
    ).collect();
    serde_json::Value::Object(map).to_string()
}

/// The string value of the first field named `key`.
pub fn field_text(fields: &Vec<(String, Option<String>)>, key: &str) -> (r: Option<String>)
    ensures
        match r {
            Some(s) => field_str(field_views(fields@), key@) == Some(s@),
            None => field_str(field_views(fields@), key@) is None,
        },
{
    let ghost all = field_views(fields@);
    let wanted = key.to_string();
    proof {
        vstd::string::to_string_from_display_ensures_for_str(key, wanted);
        assert(all.skip(0) =~= all);
    }
    let mut i: usize = 0;
    while i < fields.len()
        invariant
            all == field_views(fields@),
            wanted@ == key@,
            i <= fields@.len(),
            field_str(all, key@) == field_str(all.skip(i as int), key@),
        decreases fields@.len() - i,
    {
        proof {
            assert(all.skip(i as int).drop_first() =~= all.skip(i + 1));
            assert(all.skip(i as int)[0] == all[i as int]);
        }
        if fields[i].0 == wanted {
            return match &fields[i].1 {
                Some(s) => Some(s.clone()),
                None => None,
            };
        }
        i = i + 1;
    }
    None
}

} // verus!
