//! The catalog's records and the operations on the loaded collection.

use crate::laws::{lemma_delete_absent, lemma_deleted_id_is_gone};
use vstd::prelude::*;

verus! {

/// The mathematical value of a catalog record.
pub struct Record {
    pub id: int,
    pub title: Seq<char>,
    pub year: Seq<char>,
    pub mode: Seq<char>,
    pub company: Seq<char>,
}

/// A catalog record as stored: an id and four free-form text fields.
#[derive(Debug, Clone, PartialEq, Eq)]
pub struct VideoGame {
    pub id: i32,
    pub title: String,
    pub year: String,
    pub mode: String,
    pub company: String,
}

impl View for VideoGame {
    type V = Record;

    open spec fn view(&self) -> Record {
        Record {
            id: self.id as int,
            title: self.title@,
            year: self.year@,
            mode: self.mode@,
            company: self.company@,
        }
    }
}

impl DeepView for VideoGame {
    type V = Record;

    open spec fn deep_view(&self) -> Record {
        self@
    }
}

/// The fields that a creator supplies for a new record: all but the id.
#[derive(Debug, Clone, PartialEq, Eq)]
pub struct VideoGameCreate {
    pub title: String,
    pub year: String,
    pub mode: String,
    pub company: String,
}

/// The mathematical value of the fields supplied for a new record.
pub struct Candidate {
    pub title: Seq<char>,
    pub year: Seq<char>,
    pub mode: Seq<char>,
    pub company: Seq<char>,
}

impl View for VideoGameCreate {
    type V = Candidate;

    open spec fn view(&self) -> Candidate {
        Candidate {
            title: self.title@,
            year: self.year@,
            mode: self.mode@,
            company: self.company@,
        }
    }
}

/// The ids of a collection, in order.
pub open spec fn ids(games: Seq<Record>) -> Seq<int> {
    games.map_values(|game: Record| game.id)
}

/// The id that the next created record receives: one more than the largest
/// id present, or 1 when the collection is empty.
pub open spec fn next_id(games: Seq<Record>) -> int {
    if games.len() == 0 {
        1
    } else {
        ids(games).max() + 1
    }
}

/// The record made of a creator's fields and the given id.
pub open spec fn assigned(candidate: Candidate, id: int) -> Record {
    Record {
        id,
        title: candidate.title,
        year: candidate.year,
        mode: candidate.mode,
        company: candidate.company,
    }
}

/// Some record of the collection has this id.
pub open spec fn contains_id(games: Seq<Record>, id: int) -> bool {
    exists|i: int| 0 <= i < games.len() && games[i].id == id
}

/// Position `i` holds the first record of the collection with this id.
pub open spec fn is_first_with_id(games: Seq<Record>, id: int, i: int) -> bool {
    &&& 0 <= i < games.len()
    &&& games[i].id == id
    &&& forall|j: int| 0 <= j < i ==> games[j].id != id
}

/// The records whose company is exactly `company`, in their order.
pub open spec fn of_company(games: Seq<Record>, company: Seq<char>) -> Seq<Record> {
    games.filter(|game: Record| game.company == company)
}

/// The collection without the records that have this id, in their order.
pub open spec fn without_id(games: Seq<Record>, id: int) -> Seq<Record> {
    games.filter(|game: Record| game.id != id)
}

/// No two records of the collection share an id.
pub open spec fn ids_unique(games: Seq<Record>) -> bool {
    forall|i: int, j: int| 0 <= i < j < games.len() ==> games[i].id != games[j].id
}

/// Taking one more record into account either appends it to the chosen
/// records or leaves them as they are.
proof fn lemma_of_company_step(games: Seq<Record>, company: Seq<char>, k: int)
    requires
        0 <= k < games.len(),
    ensures
        of_company(games.take(k + 1), company) == if games[k].company == company {
            of_company(games.take(k), company).push(games[k])
        } else {
            of_company(games.take(k), company)
        },
{
    assert(games.take(k + 1) =~= games.take(k).push(games[k]));
    games.take(k).lemma_filter_push(games[k], |game: Record| game.company == company);
}

/// Taking one more record into account either appends it to the kept records
/// or leaves them as they are.
proof fn lemma_without_id_step(games: Seq<Record>, id: int, k: int)
    requires
        0 <= k < games.len(),
    ensures
        without_id(games.take(k + 1), id) == if games[k].id != id {
            without_id(games.take(k), id).push(games[k])
        } else {
            without_id(games.take(k), id)
        },
{
    assert(games.take(k + 1) =~= games.take(k).push(games[k]));
    games.take(k).lemma_filter_push(games[k], |game: Record| game.id != id);
}

/// Why an edit of the collection was refused.
#[derive(Debug, Clone, Copy, PartialEq, Eq)]
pub enum StoreError {
    /// No record has the id that was asked for.
    NotFound,
}

/// The five example records that an empty catalog starts with.
pub open spec fn seed_records() -> Seq<Record> {
    seq![
        Record {
            id: 1,
            title: "The Legend of Zelda: Breath of the Wild"@,
            year: "2017"@,
            mode: "Aventura"@,
            company: "Nintendo"@,
        },
        Record {
            id: 2,
            title: "The Witcher 3: Wild Hunt"@,
            year: "2015"@,
            mode: "Rol"@,
            company: "CD Projekt"@,
        },
        Record {
            id: 3,
            title: "Red Dead Redemption 2"@,
            year: "2018"@,
            mode: "Aventura"@,
            company: "Rockstar"@,
        },
        Record {
            id: 4,
            title: "The Elder Scrolls V: Skyrim"@,
            year: "2011"@,
            mode: "Rol"@,
            company: "Bethesda"@,
        },
        Record {
            id: 5,
            title: "Grand Theft Auto V"@,
            year: "2013"@,
            mode: "Aventura"@,
            company: "Rockstar"@,
        },
    ]
}

fn seed_game(id: i32, title: &str, year: &str, mode: &str, company: &str) -> (game: VideoGame)
    ensures
        game.deep_view() == (Record {
            id: id as int,
            title: title@,
            year: year@,
            mode: mode@,
            company: company@,
        }),
{
    VideoGame {
        id,
        title: title.to_owned(),
        year: year.to_owned(),
        mode: mode.to_owned(),
        company: company.to_owned(),
    }
}

/// Initializes the video game database: an empty collection is to be replaced
/// by the five seed records, any other collection is left as it is.
///
/// `Some` holds the collection to store; `None` means that nothing is written.
pub fn initialize(games: &Vec<VideoGame>) -> (seed: Option<Vec<VideoGame>>)
    ensures
        seed is Some <==> games.len() == 0,
        seed matches Some(records) ==> records.deep_view() == seed_records(),
{
    if games.len() == 0 {
        let mut records: Vec<VideoGame> = Vec::new();
        records.push(
            seed_game(1, "The Legend of Zelda: Breath of the Wild", "2017", "Aventura", "Nintendo"),
        );
        records.push(seed_game(2, "The Witcher 3: Wild Hunt", "2015", "Rol", "CD Projekt"));
        records.push(seed_game(3, "Red Dead Redemption 2", "2018", "Aventura", "Rockstar"));
        records.push(seed_game(4, "The Elder Scrolls V: Skyrim", "2011", "Rol", "Bethesda"));
        records.push(seed_game(5, "Grand Theft Auto V", "2013", "Aventura", "Rockstar"));
        assert(records.deep_view() =~= seed_records());
        Some(records)
    } else {
        None
    }
}

/// Tells whether the collection leaves room for a further id: whether its
/// next id fits in an `i32`.
pub fn can_assign_id(games: &Vec<VideoGame>) -> (fits: bool)
    ensures
        fits == (next_id(games.deep_view()) <= i32::MAX),
{
    let mut i: usize = 0;
    while i < games.len()
        invariant
            i <= games.len(),
            forall|k: int| 0 <= k < i ==> games[k].id < i32::MAX,
        decreases games.len() - i,
    {
        if games[i].id == i32::MAX {
            proof {
                let all = ids(games.deep_view());
                all.max_ensures();
                assert(all[i as int] == i32::MAX);
            }
            return false;
        }
        i += 1;
    }
    proof {
        let all = ids(games.deep_view());
        all.max_ensures();
        if games.len() > 0 {
            let k = choose|k: int| 0 <= k < all.len() && all[k] == all.max();
            assert(games[k].id < i32::MAX);
        }
    }
    true
}

/// Gets the next id for a new video game. The collection must leave room
/// for it, which `can_assign_id` tells.
pub fn get_next_id(games: &Vec<VideoGame>) -> (id: i32)
    requires
        next_id(games.deep_view()) <= i32::MAX,
    ensures
        id == next_id(games.deep_view()),
        games.len() == 0 ==> id == 1,
{
    if games.len() == 0 {
        return 1;
    }
    let mut largest: i32 = games[0].id;
    let mut i: usize = 1;
    while i < games.len()
        invariant
            1 <= i <= games.len(),
            exists|k: int| 0 <= k < i && games[k].id == largest,
            forall|k: int| 0 <= k < i ==> games[k].id <= largest,
        decreases games.len() - i,
    {
        if games[i].id > largest {
            largest = games[i].id;
        }
        i += 1;
    }
    proof {
        let all = ids(games.deep_view());
        all.max_ensures();
        let k = choose|k: int| 0 <= k < games.len() && games[k].id == largest;
        assert(all[k] == largest);
    }
    largest + 1
}

impl VideoGame {
    /// Converts a `VideoGameCreate` into a `VideoGame` whose id is the next
    /// id of the given collection. The collection must leave room for it,
    /// which `can_assign_id` tells.
    pub fn from(game: VideoGameCreate, games: &Vec<VideoGame>) -> (created: VideoGame)
        requires
            next_id(games.deep_view()) <= i32::MAX,
        ensures
            created.deep_view() == assigned(game@, next_id(games.deep_view())),
    {
        VideoGame {
            id: get_next_id(games),
            title: game.title,
            year: game.year,
            mode: game.mode,
            company: game.company,
        }
    }
}

/// Reads all video games: the decoded collection, in stored order, or the
/// empty collection when the stored text could not be decoded.
pub fn read_games(decoded: Option<Vec<VideoGame>>) -> (games: Vec<VideoGame>)
    ensures
        match decoded {
            Some(stored) => games == stored,
            None => games.deep_view() == Seq::<Record>::empty(),
        },
{
    match decoded {
        Some(stored) => stored,
        None => {
            let games: Vec<VideoGame> = Vec::new();
            assert(games.deep_view() =~= Seq::<Record>::empty());
            games
        },
    }
}

/// Creates a new video game: the record is appended to the collection.
pub fn create_game(games: Vec<VideoGame>, game: VideoGame) -> (stored: Vec<VideoGame>)
    ensures
        stored.deep_view() == games.deep_view().push(game.deep_view()),
{
    let mut stored = games;
    stored.push(game);
    assert(stored.deep_view() =~= games.deep_view().push(game.deep_view()));
    stored
}

/// Reads a video game by its id: the first record with that id, if any.
pub fn read_game_by_id(games: Vec<VideoGame>, id: i32) -> (found: Option<VideoGame>)
    ensures
        match found {
            Some(game) => exists|i: int|
                is_first_with_id(games.deep_view(), id as int, i) && game.deep_view()
                    == games.deep_view()[i],
            None => !contains_id(games.deep_view(), id as int),
        },
{
    let mut rest = games;
    let mut i: usize = 0;
    while i < rest.len()
        invariant
            rest == games,
            i <= rest.len(),
            forall|j: int| 0 <= j < i ==> games.deep_view()[j].id != id,
        decreases rest.len() - i,
    {
        if rest[i].id == id {
            assert(is_first_with_id(games.deep_view(), id as int, i as int));
            return Some(rest.remove(i));
        }
        i += 1;
    }
    None
}

/// Reads the video games of a corporation: every record whose company is
/// exactly `corporation`, in stored order.
pub fn read_game_by_corporation(games: Vec<VideoGame>, corporation: &str) -> (found: Vec<
    VideoGame,
>)
    ensures
        found.deep_view() == of_company(games.deep_view(), corporation@),
{
    let wanted = corporation.to_owned();
    let mut found: Vec<VideoGame> = Vec::new();
    for game in it: games.into_iter()
        invariant
            wanted@ == corporation@,
            it.seq() == games@,
            found.deep_view() == of_company(
                games.deep_view().take(it.index() as int),
                corporation@,
            ),
    {
        proof {
            lemma_of_company_step(games.deep_view(), corporation@, it.index() as int);
        }
        if game.company == wanted {
            found.push(game);
        }
    }
    assert(games.deep_view().take(games.len() as int) =~= games.deep_view());
    found
}

/// Updates a video game by its id: the first record with that id gives its
/// place to `game`, whatever id `game` carries. Without such a record nothing
/// is to be stored.
pub fn update_game(games: Vec<VideoGame>, id: i32, game: VideoGame) -> (stored: Result<
    Vec<VideoGame>,
    StoreError,
>)
    ensures
        match stored {
            Ok(records) => exists|i: int|
                is_first_with_id(games.deep_view(), id as int, i) && records.deep_view()
                    == games.deep_view().update(i, game.deep_view()),
            Err(error) => error == StoreError::NotFound && !contains_id(
                games.deep_view(),
                id as int,
            ),
        },
{
    let mut records = games;
    let mut i: usize = 0;
    while i < records.len()
        invariant
            records == games,
            i <= records.len(),
            forall|j: int| 0 <= j < i ==> games.deep_view()[j].id != id,
        decreases records.len() - i,
    {
        if records[i].id == id {
            assert(is_first_with_id(games.deep_view(), id as int, i as int));
            records.set(i, game);
            assert(records.deep_view() =~= games.deep_view().update(i as int, game.deep_view()));
            return Ok(records);
        }
        i += 1;
    }
    Err(StoreError::NotFound)
}

/// Deletes a video game by its id: every record with that id leaves the
/// collection, the others keep their order.
pub fn delete_game(games: Vec<VideoGame>, id: i32) -> (stored: Vec<VideoGame>)
    ensures
        stored.deep_view() == without_id(games.deep_view(), id as int),
        !contains_id(stored.deep_view(), id as int),
        !contains_id(games.deep_view(), id as int) ==> stored.deep_view() == games.deep_view(),
{
    let mut stored: Vec<VideoGame> = Vec::new();
    for game in it: games.into_iter()
        invariant
            it.seq() == games@,
            stored.deep_view() == without_id(
                games.deep_view().take(it.index() as int),
                id as int,
            ),
    {
        proof {
            lemma_without_id_step(games.deep_view(), id as int, it.index() as int);
        }
        if game.id != id {
            stored.push(game);
        }
    }
    proof {
        assert(games.deep_view().take(games.len() as int) =~= games.deep_view());
        lemma_deleted_id_is_gone(games.deep_view(), id as int);
        if !contains_id(games.deep_view(), id as int) {
            lemma_delete_absent(games.deep_view(), id as int);
        }
    }
    stored
}

} // verus!
