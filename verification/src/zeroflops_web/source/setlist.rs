use crate::zeroflops::{Error, Id, InternalError, Source, SourceType};
use vstd::prelude::*;

verus! {

/// A setlist of setlist.fm: the date of the show, the artist, the venue and the songs.
#[derive(Clone, Debug, PartialEq, Eq)]
pub struct Setlist {
    pub event_date: String,
    pub artist: Artist,
    pub venue: Venue,
    pub sets: Sets,
    pub url: String,
}

/// An artist.
#[derive(Clone, Debug, PartialEq, Eq)]
pub struct Artist {
    pub name: String,
}

/// A venue and its city.
#[derive(Clone, Debug, PartialEq, Eq)]
pub struct Venue {
    pub name: String,
    pub city: City,
}

/// A city, its state and its country.
#[derive(Clone, Debug, PartialEq, Eq)]
pub struct City {
    pub name: String,
    pub state_code: String,
    pub country: Country,
}

/// A country by its code.
#[derive(Clone, Debug, PartialEq, Eq)]
pub struct Country {
    pub code: String,
}

/// The sets of a show.
#[derive(Clone, Debug, PartialEq, Eq)]
pub struct Sets {
    pub set: Vec<SongSet>,
}

/// One set of a show.
#[derive(Clone, Debug, PartialEq, Eq)]
pub struct SongSet {
    pub song: Vec<Song>,
}

/// A song of a set: played from tape or live, and maybe a cover of another artist.
#[derive(Clone, Debug, PartialEq, Eq)]
pub struct Song {
    pub name: String,
    pub tape: Option<bool>,
    pub cover: Option<Artist>,
}

/// The songs that were played live, set after set, each with the artist to look it
/// up by: the covered artist for a cover, else the setlist's artist.
pub open spec fn live_songs(sets: Seq<SongSet>, artist: Seq<char>) -> Seq<(Seq<char>, Seq<char>)>
    decreases sets.len(),
{
    if sets.len() == 0 {
        Seq::empty()
    } else {
        live_songs(sets.drop_last(), artist) + live_songs_of(sets.last().song@, artist)
    }
}

/// The songs of one set that were played live (see `live_songs`).
pub open spec fn live_songs_of(songs: Seq<Song>, artist: Seq<char>) -> Seq<(Seq<char>, Seq<char>)>
    decreases songs.len(),
{
    if songs.len() == 0 {
        Seq::empty()
    } else {
        let s = songs.last();
        let rest = live_songs_of(songs.drop_last(), artist);
        if s.tape is None {
            rest.push((s.name@, match s.cover {
                Some(c) => c.name@,
                None => artist,
            }))
        } else {
            rest
        }
    }
}

/// The song and artist that a song is looked up by: its name, and the covered
/// artist for a cover, else the setlist's artist.
pub open spec fn lookup_of(x: Song, artist: Seq<char>) -> (Seq<char>, Seq<char>) {
    (x.name@, match x.cover {
        Some(c) => c.name@,
        None => artist,
    })
}

/// The lookups of the songs of one set that were not played from tape, in order.
pub open spec fn set_lookups(st: SongSet, artist: Seq<char>) -> Seq<(Seq<char>, Seq<char>)> {
    st.song@.filter(|x: Song| x.tape is None).map_values(|x: Song| lookup_of(x, artist))
}

/// The lookups of every set, set after set.
pub open spec fn all_lookups(sets: Seq<SongSet>, artist: Seq<char>) -> Seq<(Seq<char>, Seq<char>)> {
    sets.map_values(|st: SongSet| set_lookups(st, artist)).flatten()
}

/// The songs of a set to look up are exactly those of the set not played from tape,
/// in order, each with its lookup: none is dropped, none added.
pub proof fn lemma_live_songs_of_set(songs: Seq<Song>, artist: Seq<char>)
    ensures
        live_songs_of(songs, artist) == songs.filter(|x: Song| x.tape is None).map_values(
            |x: Song| lookup_of(x, artist),
        ),
    decreases songs.len(),
{
    broadcast use Seq::lemma_filter_push;
    let p = |x: Song| x.tape is None;
    let f = |x: Song| lookup_of(x, artist);
    if songs.len() > 0 {
        let init = songs.drop_last();
        lemma_live_songs_of_set(init, artist);
        assert(songs == init.push(songs.last()));
        assert(songs.filter(p) == init.push(songs.last()).filter(p));
        if p(songs.last()) {
            assert(songs.filter(p).map_values(f) =~= init.filter(p).map_values(f).push(f(songs.last())));
        } else {
            assert(songs.filter(p).map_values(f) =~= init.filter(p).map_values(f));
        }
    } else {
        reveal(Seq::filter);
        assert(songs.filter(p).map_values(f) =~= Seq::<(Seq<char>, Seq<char>)>::empty());
    }
}

/// The songs to look up from a setlist are those of each set not played from tape, set
/// after set, in order: every set is read, and every such song of it.
pub proof fn lemma_live_songs_all_sets(sets: Seq<SongSet>, artist: Seq<char>)
    ensures
        live_songs(sets, artist) == all_lookups(sets, artist),
    decreases sets.len(),
{
    let g = |st: SongSet| set_lookups(st, artist);
    let m = sets.map_values(g);
    m.lemma_flatten_and_flatten_alt_are_equivalent();
    if sets.len() > 0 {
        let init = sets.drop_last();
        lemma_live_songs_all_sets(init, artist);
        lemma_live_songs_of_set(sets.last().song@, artist);
        init.map_values(g).lemma_flatten_and_flatten_alt_are_equivalent();
        assert(m.drop_last() =~= init.map_values(g));
        assert(m.last() == set_lookups(sets.last(), artist));
    } else {
        assert(m =~= Seq::<Seq<(Seq<char>, Seq<char>)>>::empty());
    }
}

/// Whether a song and artist to look up are the given texts.
pub open spec fn is_lookup(x: (String, Option<String>), y: (Seq<char>, Seq<char>)) -> bool {
    x.0@ == y.0 && (x.1 matches Some(a) && a@ == y.1)
}

/// The songs to look up on Spotify (see `live_songs`), each with its artist.
pub fn setlist_songs(setlist: &Setlist) -> (r: Vec<(String, Option<String>)>)
    ensures
        r@.len() == live_songs(setlist.sets.set@, setlist.artist.name@).len(),
        forall|i: int| 0 <= i < r@.len() ==> is_lookup(#[trigger] r@[i], live_songs(setlist.sets.set@, setlist.artist.name@)[i]),
        r@.len() == all_lookups(setlist.sets.set@, setlist.artist.name@).len(),
        forall|i: int| 0 <= i < r@.len() ==> is_lookup(#[trigger] r@[i], all_lookups(setlist.sets.set@, setlist.artist.name@)[i]),
{
    proof {
        lemma_live_songs_all_sets(setlist.sets.set@, setlist.artist.name@);
    }
    let sets = &setlist.sets.set;
    let ghost artist = setlist.artist.name@;
    let mut out: Vec<(String, Option<String>)> = Vec::new();
    let mut k: usize = 0;
    while k < sets.len()
        invariant
            k <= sets@.len(),
            artist == setlist.artist.name@,
            out@.len() == live_songs(sets@.take(k as int), artist).len(),
            forall|i: int| 0 <= i < out@.len() ==> is_lookup(#[trigger] out@[i], live_songs(sets@.take(k as int), artist)[i]),
        decreases sets.len() - k,
    {
        proof {
            assert(sets@.take(k + 1).drop_last() =~= sets@.take(k as int));
        }
        let ghost before = live_songs(sets@.take(k as int), artist);
        let songs = &sets[k].song;
        let mut j: usize = 0;
        while j < songs.len()
            invariant
                j <= songs@.len(),
                artist == setlist.artist.name@,
                out@.len() == before.len() + live_songs_of(songs@.take(j as int), artist).len(),
                forall|i: int| 0 <= i < out@.len() ==> is_lookup(#[trigger] out@[i], (before + live_songs_of(songs@.take(j as int), artist))[i]),
            decreases songs.len() - j,
        {
            proof {
                assert(songs@.take(j + 1).drop_last() =~= songs@.take(j as int));
            }
            let song = &songs[j];
            if song.tape.is_none() {
                let by = match &song.cover {
                    Some(c) => c.name.clone(),
                    None => setlist.artist.name.clone(),
                };
                out.push((song.name.clone(), Some(by)));
                proof {
                    let now = before + live_songs_of(songs@.take(j + 1), artist);
                    assert(now =~= (before + live_songs_of(songs@.take(j as int), artist)).push((song.name@, by@)));
                }
            } else {
                proof {
                    assert(before + live_songs_of(songs@.take(j + 1), artist) =~= before + live_songs_of(songs@.take(j as int), artist));
                }
            }
            j = j + 1;
        }
        proof {
            assert(songs@.take(songs@.len() as int) =~= songs@);
            assert(sets@.take(k + 1).last() == sets@[k as int]);
        }
        k = k + 1;
    }
    proof {
        assert(sets@.take(sets@.len() as int) =~= sets@);
    }
    out
}

/// What the `time` crate makes of a show date written `[day]-[month]-[year]`: the
/// date written `[month repr:short] [day], [year]`, or the text of the parse error.
pub uninterp spec fn show_date(event_date: Seq<char>) -> Result<Seq<char>, Seq<char>>;

/// `time::Date::parse` with the format `[day]-[month]-[year]`, then `Date::format`
/// with `[month repr:short] [day], [year]`; a parse error as its text. Trusted to give
/// what `show_date` names; both formats are valid, so nothing panics.
#[verifier::external_body]
fn format_show_date(event_date: &str) -> (r: Result<String, String>)
    ensures
        match r {
            Ok(d) => show_date(event_date@) == Ok::<Seq<char>, Seq<char>>(d@),
            Err(e) => show_date(event_date@) == Err::<Seq<char>, Seq<char>>(e@),
        },
{
    let read_format = time::format_description::parse("[day]-[month]-[year]").unwrap();
    let write_format = time::format_description::parse("[month repr:short] [day], [year]").unwrap();
    match time::Date::parse(event_date, &read_format) {
        Ok(date) => Ok(date.format(&write_format).unwrap()),
        Err(e) => Err(e.to_string()),
    }
}

/// The name of a setlist source: the date, the artist, the venue, its city, state and
/// country.
pub open spec fn setlist_name(date: Seq<char>, s: Setlist) -> Seq<char> {
    date + " "@ + s.artist.name@ + " at "@ + s.venue.name@ + ", "@ + s.venue.city.name@ + ", "@
        + s.venue.city.state_code@ + ", "@ + s.venue.city.country.code@
}

/// The source for a setlist, named after its show; a server error where setlist.fm
/// sent a date that does not read.
pub fn setlist_source(id: Id, setlist: &Setlist) -> (r: Result<Source, Error>)
    ensures
        match show_date(setlist.event_date@) {
            Ok(d) => r matches Ok(s) && s.source_type == SourceType::Setlist(id) && s.name@ == setlist_name(d, *setlist),
            Err(e) => r matches Err(Error::InternalError(InternalError::Error(m))) && m@ == "Unexpected date from setlist.fm: "@ + e,
        },
{
    match format_show_date(setlist.event_date.as_str()) {
        Ok(date) => {
            let name = date.concat(" ").concat(setlist.artist.name.as_str()).concat(" at ").concat(
                setlist.venue.name.as_str(),
            ).concat(", ").concat(setlist.venue.city.name.as_str()).concat(", ").concat(
                setlist.venue.city.state_code.as_str(),
            ).concat(", ").concat(setlist.venue.city.country.code.as_str());
            Ok(Source { source_type: SourceType::Setlist(id), name })
        },
        Err(e) => Err(
            Error::InternalError(
                InternalError::Error(String::from_str("Unexpected date from setlist.fm: ").concat(e.as_str())),
            ),
        ),
    }
}

} // verus!
