//! The request of a search: the settings of a search become the query of an
//! address.

use vstd::prelude::*;
use vstd::string::*;
use crate::address::{
    append_pair, byte_len, parse_url, parsed_text, text_with_pair, url_as_str, url_text,
};
use crate::error::{ErrTypeView, Error};
use crate::source::{generate_bitmask, mask_of, Source};
use crate::text::{decimal, decimal_of, starts_with};

verus! {

/// The address of the service.
pub const API_URL: &'static str = "https://saucenao.com/search.php";

/// The greatest number of results that a search may ask for, and the number
/// that is asked for where none is set.
pub const MAX_RESULTS: u32 = 999;

/// The output type that makes the service answer in JSON. Every request
/// asks for it.
pub const JSON_OUTPUT: u32 = 2;

/// The settings of a search that stay as they are once a handler is built.
#[derive(Clone, Debug, PartialEq)]
pub struct SearchConfig {
    /// The key of the account; may be empty.
    pub api_key: String,
    /// Whether every index is to give one result at most. Off where it is
    /// not set.
    pub testmode: Option<bool>,
    /// The sites to search, if the search is limited to some.
    pub db_mask: Option<Vec<Source>>,
    /// The sites to leave out, if any.
    pub db_mask_i: Option<Vec<Source>>,
    /// The one index to search, if the search is limited to one; 999 stands
    /// for all.
    pub db: Option<u32>,
    /// How many results to ask for where a search does not say.
    pub num_results: Option<u32>,
}

/// What a `SearchConfig` holds, as mathematical values.
pub struct SearchConfigView {
    pub api_key: Seq<char>,
    pub testmode: Option<bool>,
    pub db_mask: Option<Seq<Source>>,
    pub db_mask_i: Option<Seq<Source>>,
    pub db: Option<u32>,
    pub num_results: Option<u32>,
}

/// The members of a selection of sites that may be missing.
pub open spec fn sources_of(list: Option<Vec<Source>>) -> Option<Seq<Source>> {
    match list {
        Some(sources) => Some(sources@),
        None => None,
    }
}

impl View for SearchConfig {
    type V = SearchConfigView;

    open spec fn view(&self) -> SearchConfigView {
        SearchConfigView {
            api_key: self.api_key@,
            testmode: self.testmode,
            db_mask: sources_of(self.db_mask),
            db_mask_i: sources_of(self.db_mask_i),
            db: self.db,
            num_results: self.num_results,
        }
    }
}

/// A name and a value of the query of an address.
#[derive(Clone, Debug, PartialEq, Eq)]
pub struct QueryPair {
    pub name: String,
    pub value: String,
}

impl View for QueryPair {
    type V = (Seq<char>, Seq<char>);

    open spec fn view(&self) -> (Seq<char>, Seq<char>) {
        (self.name@, self.value@)
    }
}

/// The names and values of a list of pairs.
pub open spec fn pair_views(pairs: Seq<QueryPair>) -> Seq<(Seq<char>, Seq<char>)> {
    pairs.map_values(|pair: QueryPair| pair@)
}

/// Whether the image of a search is at a remote address, which the service
/// fetches itself. Any other image is a local file.
pub open spec fn is_remote(image_path: Seq<char>) -> bool {
    "https://"@.is_prefix_of(image_path) || "http://"@.is_prefix_of(image_path)
}

/// The number of results that a search asks for: what the search says, else
/// what the settings say, else 999.
pub open spec fn results_cap(config: SearchConfigView, num_results: Option<u32>) -> u32 {
    match num_results {
        Some(n) => n,
        None => match config.num_results {
            Some(n) => n,
            None => MAX_RESULTS,
        },
    }
}

/// The pair that limits a search to one index, if the settings do so.
pub open spec fn db_pairs(db: Option<u32>) -> Seq<(Seq<char>, Seq<char>)> {
    match db {
        Some(index) => seq![("db"@, decimal_of(index as nat))],
        None => seq![],
    }
}

/// The pair that carries a selection of sites as a bitmask, if there is a
/// selection and it is not empty.
pub open spec fn mask_pairs(name: Seq<char>, selection: Option<Seq<Source>>) -> Seq<
    (Seq<char>, Seq<char>),
> {
    match selection {
        Some(sources) => if sources.len() > 0 {
            seq![(name, decimal_of(mask_of(sources) as nat))]
        } else {
            seq![]
        },
        None => seq![],
    }
}

/// The pair that carries the address of a remote image.
pub open spec fn url_pairs(image_path: Seq<char>) -> Seq<(Seq<char>, Seq<char>)> {
    if is_remote(image_path) {
        seq![("url"@, image_path)]
    } else {
        seq![]
    }
}

/// The pair that says whether every index is to give one result at most: 1
/// if so, 0 if not or if nothing is set.
pub open spec fn testmode_pair(testmode: Option<bool>) -> (Seq<char>, Seq<char>) {
    (
        "testmode"@,
        decimal_of(
            if testmode == Some(true) {
                1
            } else {
                0
            },
        ),
    )
}

/// The query of a search, pair by pair and in the order in which it is
/// written.
pub open spec fn query_pairs_of(
    config: SearchConfigView,
    image_path: Seq<char>,
    num_results: Option<u32>,
) -> Seq<(Seq<char>, Seq<char>)> {
    seq![("api_key"@, config.api_key), ("output_type"@, decimal_of(JSON_OUTPUT as nat))]
        + db_pairs(config.db) + mask_pairs("dbmask"@, config.db_mask) + mask_pairs(
        "dbmaski"@,
        config.db_mask_i,
    ) + seq![
        testmode_pair(config.testmode),
        ("numres"@, decimal_of(results_cap(config, num_results) as nat)),
    ] + url_pairs(image_path)
}

/// The text of an address after the pairs have been added to its query, one
/// after the other.
pub open spec fn text_with_pairs(text: Seq<char>, pairs: Seq<(Seq<char>, Seq<char>)>) -> Seq<char>
    decreases pairs.len(),
{
    if pairs.len() == 0 {
        text
    } else {
        text_with_pair(text_with_pairs(text, pairs.drop_last()), pairs.last().0, pairs.last().1)
    }
}

/// The greatest number of bytes that the pairs can add to an address: of a
/// name and of a value three for each of its bytes, and three more for what
/// stands between them.
pub open spec fn pairs_room(pairs: Seq<(Seq<char>, Seq<char>)>) -> nat
    decreases pairs.len(),
{
    if pairs.len() == 0 {
        0
    } else {
        pairs_room(pairs.drop_last()) + 3 * (byte_len(pairs.last().0) + byte_len(pairs.last().1))
            + 3
    }
}

/// Whether an address with the text `text` stays within the 4 GB that an
/// address can have when the pairs are added to it.
pub open spec fn pairs_fit(text: Seq<char>, pairs: Seq<(Seq<char>, Seq<char>)>) -> bool {
    byte_len(text) + pairs_room(pairs) <= u32::MAX
}

/// The address of a search as text, or `None` if there is none: because the
/// address of the service is refused, or because the query is too long for
/// an address.
pub open spec fn request_url(
    config: SearchConfigView,
    image_path: Seq<char>,
    num_results: Option<u32>,
) -> Option<Seq<char>> {
    let pairs = query_pairs_of(config, image_path, num_results);
    match parsed_text(API_URL@) {
        Some(base) => if pairs_fit(base, pairs) {
            Some(text_with_pairs(base, pairs))
        } else {
            None
        },
        None => None,
    }
}

/// The failure of a search whose query is too long for an address.
pub open spec fn query_too_long() -> ErrTypeView {
    ErrTypeView::InvalidParse("the query is too long for an address"@)
}

fn pair(name: &str, value: String) -> (r: QueryPair)
    ensures
        r@ == (name@, value@),
{
    QueryPair { name: String::from_str(name), value }
}

/// Whether the image of a search is at a remote address.
pub fn is_remote_path(image_path: &str) -> (r: bool)
    ensures
        r == is_remote(image_path@),
{
    starts_with(image_path, "https://") || starts_with(image_path, "http://")
}

/// The number of bytes that `text` takes.
fn bytes_in(text: &str) -> (r: usize)
    ensures
        r == byte_len(text@),
{
    text.as_bytes().len()
}

/// Measures the room that the pairs need in an address. Returns `None` if
/// it is more than an address can have.
fn room_of(pairs: &Vec<QueryPair>) -> (r: Option<u64>)
    ensures
        match r {
            Some(room) => room == pairs_room(pair_views(pairs@)) && room <= u32::MAX,
            None => pairs_room(pair_views(pairs@)) > u32::MAX,
        },
{
    let ghost all = pair_views(pairs@);
    let mut room: u64 = 0;
    let mut i: usize = 0;
    while i < pairs.len()
        invariant
            i <= pairs.len(),
            all == pair_views(pairs@),
            room == pairs_room(all.take(i as int)),
            room <= u32::MAX,
        decreases pairs.len() - i,
    {
        let name_len: usize = bytes_in(pairs[i].name.as_str());
        let value_len: usize = bytes_in(pairs[i].value.as_str());
        proof {
            assert(all.take(i + 1).drop_last() =~= all.take(i as int));
            lemma_room_grows(all, i + 1);
        }
        if name_len > 0xffff_ffff || value_len > 0xffff_ffff {
            return None;
        }
        let grown: u64 = room + 3 * (name_len as u64 + value_len as u64) + 3;
        if grown > 0xffff_ffff {
            return None;
        }
        room = grown;
        i = i + 1;
    }
    proof {
        assert(all.take(all.len() as int) =~= all);
    }
    Some(room)
}

/// The room that the first pairs of a list need is at most the room that
/// all of them need.
proof fn lemma_room_grows(pairs: Seq<(Seq<char>, Seq<char>)>, upto: int)
    requires
        0 <= upto <= pairs.len(),
    ensures
        pairs_room(pairs.take(upto)) <= pairs_room(pairs),
    decreases pairs.len() - upto,
{
    if upto < pairs.len() {
        assert(pairs.take(upto + 1).drop_last() =~= pairs.take(upto));
        lemma_room_grows(pairs, upto + 1);
    } else {
        assert(pairs.take(upto) =~= pairs);
    }
}

impl SearchConfig {
    /// The number of results that a search asks for: what the search says,
    /// else what the settings say, else 999.
    pub fn results_cap(&self, num_results: Option<u32>) -> (r: u32)
        ensures
            r == results_cap(self@, num_results),
    {
        match num_results {
            Some(n) => n,
            None => match self.num_results {
                Some(n) => n,
                None => MAX_RESULTS,
            },
        }
    }

    /// The query of a search for the image at `image_path`: the key, the
    /// output type, the selection of sites, the test mode, the number of
    /// results and, for a remote image, its address.
    pub fn query_pairs(&self, image_path: &str, num_results: Option<u32>) -> (r: Vec<QueryPair>)
        ensures
            pair_views(r@) == query_pairs_of(self@, image_path@, num_results),
    {
        let mut pairs: Vec<QueryPair> = Vec::new();
        pairs.push(pair("api_key", self.api_key.clone()));
        pairs.push(pair("output_type", decimal(JSON_OUTPUT as u64)));
        if let Some(index) = self.db {
            pairs.push(pair("db", decimal(index as u64)));
        }
        if let Some(sources) = &self.db_mask {
            if sources.len() > 0 {
                pairs.push(pair("dbmask", decimal(generate_bitmask(sources))));
            }
        }
        if let Some(sources) = &self.db_mask_i {
            if sources.len() > 0 {
                pairs.push(pair("dbmaski", decimal(generate_bitmask(sources))));
            }
        }
        let mode: u64 = match self.testmode {
            Some(true) => 1,
            _ => 0,
        };
        pairs.push(pair("testmode", decimal(mode)));
        pairs.push(pair("numres", decimal(self.results_cap(num_results) as u64)));
        if is_remote_path(image_path) {
            pairs.push(pair("url", String::from_str(image_path)));
        }
        pairs
    }

    /// The address of a search for the image at `image_path`, as text: the
    /// address of the service with the query of the search. Fails if the
    /// address of the service is refused or the query is too long for an
    /// address.
    pub fn generate_url(&self, image_path: &str, num_results: Option<u32>) -> (r: Result<
        String,
        Error,
    >)
        ensures
            match r {
                Ok(text) => request_url(self@, image_path@, num_results) == Some(text@),
                Err(failure) => request_url(self@, image_path@, num_results) is None
                    && failure@ is InvalidParse && (parsed_text(API_URL@) is Some ==> failure@
                    == query_too_long()),
            },
    {
        let pairs = self.query_pairs(image_path, num_results);
        let ghost all = pair_views(pairs@);
        let mut url = match parse_url(API_URL) {
            Ok(url) => url,
            Err(refusal) => {
                return Err(Error::invalid_parse(refusal.to_string()));
            },
        };
        let ghost base = url_text(url);
        let base_len: usize = bytes_in(url_as_str(&url));
        let fits: bool = match room_of(&pairs) {
            Some(room) => base_len <= 0xffff_ffff && base_len as u64 + room <= 0xffff_ffff,
            None => false,
        };
        if !fits {
            return Err(
                Error::invalid_parse(String::from_str("the query is too long for an address")),
            );
        }
        let mut i: usize = 0;
        while i < pairs.len()
            invariant
                i <= pairs.len(),
                all == pair_views(pairs@),
                url_text(url) == text_with_pairs(base, all.take(i as int)),
                byte_len(url_text(url)) <= byte_len(base) + pairs_room(all.take(i as int)),
                byte_len(base) + pairs_room(all) <= u32::MAX,
            decreases pairs.len() - i,
        {
            proof {
                assert(all.take(i + 1).drop_last() =~= all.take(i as int));
                lemma_room_grows(all, i + 1);
            }
            append_pair(&mut url, pairs[i].name.as_str(), pairs[i].value.as_str());
            i = i + 1;
        }
        proof {
            assert(all.take(all.len() as int) =~= all);
        }
        Ok(String::from_str(url_as_str(&url)))
    }
}

} // verus!
