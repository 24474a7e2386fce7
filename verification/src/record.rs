//! Record selection: the two interchangeable strategies both end in a
//! normalized record of display name and sprite locator. The queries
//! themselves are transport and stay with the caller; the decisions over
//! their results live here.

use vstd::prelude::*;

use crate::error::Error;

verus! {

/// A normalized creature record: display name and sprite locator. Produced
/// by a record strategy, consumed once by a sprite strategy.
#[derive(Debug, Clone)]
pub struct Pokemon {
    pub name: String,
    pub sprite_url: String,
}

/// What serde_json makes of a sprite field: `None` when the field is not
/// JSON at all, otherwise whether the parsed value is a JSON string.
pub uninterp spec fn json_string_class(s: Seq<char>) -> Option<bool>;

/// Relies on serde_json::from_str::<Value>: parsing is a function of the
/// text alone, and Value::String is one variant of the parsed value.
#[verifier::external_body]
fn classify_json(s: &str) -> (r: Option<bool>)
    ensures
        r == json_string_class(s@),
{
    match serde_json::from_str::<serde_json::Value>(s) {
        Ok(serde_json::Value::String(_)) => Some(true),
        Ok(_) => Some(false),
        Err(_) => None,
    }
}

/// A sprite field is valid when it is non-empty and is not JSON of some
/// non-string kind; plain text that is no JSON at all passes, since the
/// locator is opaque here.
pub open spec fn sprite_field_ok(s: Seq<char>) -> bool {
    s.len() > 0 && json_string_class(s) != Some(false)
}

/// Checks the sprite field of the structured-query strategy; an accepted
/// field is returned unchanged.
pub fn validate_sprite_field(field: String) -> (r: Result<String, Error>)
    ensures
        sprite_field_ok(field@) ==> (r matches Ok(s) && s@ == field@),
        !sprite_field_ok(field@) ==> r == Err::<String, Error>(Error::InvalidSprite),
{
    if field.as_str().is_empty() {
        return Err(Error::InvalidSprite);
    }
    match classify_json(field.as_str()) {
        Some(false) => Err(Error::InvalidSprite),
        _ => Ok(field),
    }
}

/// The row of the first structured query: record id and species id, both
/// needed before the two follow-up queries can be issued; no row at all
/// means no record qualified.
pub fn pokemon_row(row: Option<(i64, i64)>) -> (r: Result<(i64, i64), Error>)
    ensures
        row matches Some(ids) ==> r == Ok::<(i64, i64), Error>(ids),
        row is None ==> r == Err::<(i64, i64), Error>(Error::NotFound),
{
    match row {
        Some(ids) => Ok(ids),
        None => Err(Error::NotFound),
    }
}

/// Builds the record of the structured-query strategy from the rows the
/// name query and the sprites query returned: a missing row is `NotFound`,
/// a bad sprite field is `InvalidSprite`, and the accepted locator is the
/// sprite field unchanged.
pub fn db_record(name_row: Option<String>, sprite_row: Option<String>) -> (r: Result<
    Pokemon,
    Error,
>)
    ensures
        name_row is None || sprite_row is None ==> r == Err::<Pokemon, Error>(Error::NotFound),
        name_row matches Some(n) ==> (sprite_row matches Some(s) ==> {
            &&& sprite_field_ok(s@) ==> (r matches Ok(p) && p.name@ == n@ && p.sprite_url@
                == s@)
            &&& !sprite_field_ok(s@) ==> r == Err::<Pokemon, Error>(Error::InvalidSprite)
        }),
{
    match (name_row, sprite_row) {
        (Some(name), Some(sprite)) => match validate_sprite_field(sprite) {
            Ok(url) => Ok(Pokemon { name, sprite_url: url }),
            Err(e) => Err(e),
        },
        _ => Err(Error::NotFound),
    }
}

/// Relies on rand::random_range over 0..=bound: the draw lies in the
/// inclusive range; nothing further is assumed of a random value.
#[verifier::external_body]
fn draw_inclusive(bound: i64) -> (r: i64)
    requires
        bound >= 0,
    ensures
        0 <= r <= bound,
{
    rand::random_range(0..=bound)
}

/// Draws the random offset of the graph-query strategy, uniform over
/// [0, last_id] with the highest id read fresh for this invocation; a
/// missing or negative id is a contract violation of the count query.
pub fn graph_offset(last_id: Option<i64>) -> (r: Result<i64, Error>)
    ensures
        r matches Ok(o) ==> (last_id matches Some(n) && 0 <= o <= n),
        r is Err <==> (last_id is None || (last_id matches Some(n) && n < 0)),
        r is Err ==> r == Err::<i64, Error>(Error::NotFound),
{
    match last_id {
        Some(n) => {
            if n >= 0 {
                Ok(draw_inclusive(n))
            } else {
                Err(Error::NotFound)
            }
        },
        None => Err(Error::NotFound),
    }
}

/// Builds the record of the graph-query strategy from the nested response
/// fields; an omitted field is a contract violation of the query, reported
/// as `NotFound` and never retried.
pub fn graph_record(name: Option<String>, sprite_url: Option<String>) -> (r: Result<
    Pokemon,
    Error,
>)
    ensures
        name is None || sprite_url is None ==> r == Err::<Pokemon, Error>(Error::NotFound),
        name matches Some(n) ==> (sprite_url matches Some(s) ==> (r matches Ok(p) && p.name@
            == n@ && p.sprite_url@ == s@)),
{
    match (name, sprite_url) {
        (Some(n), Some(s)) => Ok(Pokemon { name: n, sprite_url: s }),
        _ => Err(Error::NotFound),
    }
}

} // verus!
