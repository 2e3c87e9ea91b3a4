//! Writing sequences of tiles and melds, as text and as JSON.

use super::hai::Hai;
use super::json::{json_array, json_model, json_models, json_string, JsonModel};
use super::mentsu::Mentsu;
use vstd::prelude::*;
use vstd::string::*;

verus! {

/// The tiles of `tiles` written one after the other, each followed by `gap`.
pub open spec fn tiles_text(tiles: Seq<Hai>, gap: Seq<char>) -> Seq<char>
    decreases tiles.len(),
{
    if tiles.len() == 0 {
        Seq::empty()
    } else {
        tiles_text(tiles.drop_last(), gap) + tiles.last().text() + gap
    }
}

/// The melds of `fuuro` written one after the other, each after a space.
pub open spec fn fuuro_text(fuuro: Seq<Mentsu>) -> Seq<char>
    decreases fuuro.len(),
{
    if fuuro.len() == 0 {
        Seq::empty()
    } else {
        fuuro_text(fuuro.drop_last()) + " "@ + fuuro.last().text()
    }
}

/// Each tile of `tiles` as a JSON string.
pub open spec fn tiles_json(tiles: Seq<Hai>) -> JsonModel {
    JsonModel::Array(tiles.map_values(|hai: Hai| JsonModel::String(hai.text())))
}

/// Each meld of `fuuro` as a JSON string.
pub open spec fn fuuro_json(fuuro: Seq<Mentsu>) -> JsonModel {
    JsonModel::Array(fuuro.map_values(|mentsu: Mentsu| JsonModel::String(mentsu.text())))
}

/// Writes `tiles` as [`tiles_text`] describes.
pub fn tiles_to_string(tiles: &Vec<Hai>, gap: &str) -> (s: String)
    ensures
        s@ == tiles_text(tiles@, gap@),
{
    let mut s = String::new();
    let mut i: usize = 0;
    assert(tiles@.take(0) =~= Seq::<Hai>::empty());
    while i < tiles.len()
        invariant
            i <= tiles.len(),
            s@ == tiles_text(tiles@.take(i as int), gap@),
        decreases tiles.len() - i,
    {
        assert(tiles@.take(i + 1).drop_last() =~= tiles@.take(i as int));
        s.append(tiles[i].to_string().as_str());
        s.append(gap);
        i += 1;
    }
    assert(tiles@.take(tiles.len() as int) =~= tiles@);
    s
}

/// Writes `fuuro` as [`fuuro_text`] describes.
pub fn fuuro_to_string(fuuro: &Vec<Mentsu>) -> (s: String)
    ensures
        s@ == fuuro_text(fuuro@),
{
    let mut s = String::new();
    let mut i: usize = 0;
    assert(fuuro@.take(0) =~= Seq::<Mentsu>::empty());
    while i < fuuro.len()
        invariant
            i <= fuuro.len(),
            s@ == fuuro_text(fuuro@.take(i as int)),
        decreases fuuro.len() - i,
    {
        assert(fuuro@.take(i + 1).drop_last() =~= fuuro@.take(i as int));
        s.append(" ");
        s.append(fuuro[i].to_string().as_str());
        i += 1;
    }
    assert(fuuro@.take(fuuro.len() as int) =~= fuuro@);
    s
}

/// Builds the JSON array that [`tiles_json`] describes.
pub fn tiles_to_json(tiles: &Vec<Hai>) -> (value: serde_json::Value)
    ensures
        json_model(value) == tiles_json(tiles@),
{
    let mut items: Vec<serde_json::Value> = Vec::new();
    let mut i: usize = 0;
    while i < tiles.len()
        invariant
            i <= tiles.len(),
            items@.len() == i,
            forall|j: int|
                0 <= j < i ==> json_model(#[trigger] items@[j]) == JsonModel::String(
                    tiles@[j].text(),
                ),
        decreases tiles.len() - i,
    {
        items.push(json_string(tiles[i].to_string().as_str()));
        i += 1;
    }
    assert(json_models(items@) =~= tiles@.map_values(|hai: Hai| JsonModel::String(hai.text())));
    json_array(items)
}

/// Builds the JSON array that [`fuuro_json`] describes.
pub fn fuuro_to_json(fuuro: &Vec<Mentsu>) -> (value: serde_json::Value)
    ensures
        json_model(value) == fuuro_json(fuuro@),
{
    let mut items: Vec<serde_json::Value> = Vec::new();
    let mut i: usize = 0;
    while i < fuuro.len()
        invariant
            i <= fuuro.len(),
            items@.len() == i,
            forall|j: int|
                0 <= j < i ==> json_model(#[trigger] items@[j]) == JsonModel::String(
                    fuuro@[j].text(),
                ),
        decreases fuuro.len() - i,
    {
        items.push(json_string(fuuro[i].to_string().as_str()));
        i += 1;
    }
    assert(json_models(items@) =~= fuuro@.map_values(
        |mentsu: Mentsu| JsonModel::String(mentsu.text()),
    ));
    json_array(items)
}

} // verus!
