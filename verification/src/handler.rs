//! The handler of searches: it holds the settings, checks what a search asks
//! for, builds the request, and takes in the answer.
//!
//! A handler neither sends nor reads anything. The caller sends the request
//! that `build_request` returns, decodes what comes back and hands it to
//! `process_results`. A handler that several callers share is kept behind a
//! lock of the caller's choice: taking in an answer needs the handler for
//! itself, everything else only reads it.

use vstd::prelude::*;
use vstd::string::*;
use crate::address::parsed_text;
use crate::error::{ErrTypeView, Error};
use crate::limits::{RateLimits, INITIAL_LONG_LIMIT, INITIAL_SHORT_LIMIT};
use crate::request::{
    db_pairs, is_remote, is_remote_path, mask_pairs, query_pairs_of, query_too_long, request_url,
    results_cap, sources_of, SearchConfig, SearchConfigView, API_URL, JSON_OUTPUT, MAX_RESULTS,
};
use crate::response::{
    answer_of, limits_after, normalize, sauce_views, Sauce, SauceResult, SauceView,
};
use crate::similarity::{Similarity, MAX_PERCENT_HUNDREDTHS, MIN_PERCENT_HUNDREDTHS};
use crate::source::Source;
use crate::text::decimal_of;

verus! {

/// The name under which a local image is sent where its path gives none.
pub const DEFAULT_FILE_NAME: &'static str = "image.jpg";

/// The hundredths of a similarity that may be missing.
pub open spec fn hundredths_of_option(similarity: Option<Similarity>) -> Option<int> {
    match similarity {
        Some(s) => Some(s@),
        None => None,
    }
}

/// The rate limits of a handler that has taken in no answer yet.
pub open spec fn new_limits() -> RateLimits {
    RateLimits {
        short_limit: INITIAL_SHORT_LIMIT,
        long_limit: INITIAL_LONG_LIMIT,
        short_left: INITIAL_SHORT_LIMIT,
        long_left: INITIAL_LONG_LIMIT,
    }
}

/// A handler of searches.
#[derive(Debug)]
pub struct Handler {
    config: SearchConfig,
    limits: RateLimits,
    min_similarity: Similarity,
    empty_filter_enabled: bool,
}

/// What a `Handler` holds, as mathematical values.
pub struct HandlerView {
    /// The settings that stay as they are.
    pub config: SearchConfigView,
    /// The rate limits as the last answer gave them.
    pub limits: RateLimits,
    /// The minimum similarity of a result, in hundredths of a percent, where
    /// a search does not set its own.
    pub min_similarity: int,
    /// Whether results that name no address are left out.
    pub empty_filter_enabled: bool,
}

impl View for Handler {
    type V = HandlerView;

    closed spec fn view(&self) -> HandlerView {
        HandlerView {
            config: self.config@,
            limits: self.limits,
            min_similarity: self.min_similarity@,
            empty_filter_enabled: self.empty_filter_enabled,
        }
    }
}

/// What is sent of a local image.
#[derive(Clone, Debug, PartialEq, Eq)]
pub struct Upload {
    /// The path of the file whose bytes are sent.
    pub path: String,
    /// The name under which they are sent.
    pub file_name: String,
}

/// The request of a search. It is sent with the method POST.
#[derive(Clone, Debug, PartialEq, Eq)]
pub struct Request {
    /// The address, with the query of the search.
    pub url: String,
    /// The local image to send in the body, as the one file of a multipart
    /// form. `None` for a remote image: the request then has no body.
    pub upload: Option<Upload>,
}

/// The minimum similarity that holds for a search: its own if it sets one,
/// else that of the handler.
pub open spec fn effective_min_similarity(handler: HandlerView, min_similarity: Option<int>) -> int {
    match min_similarity {
        Some(own) => own,
        None => handler.min_similarity,
    }
}

/// Whether the minimum similarity that holds for a search lies between 0
/// and 100 percent, both included.
pub open spec fn valid_min_sim(handler: HandlerView, min_similarity: Option<int>) -> bool {
    MIN_PERCENT_HUNDREDTHS <= effective_min_similarity(handler, min_similarity)
        <= MAX_PERCENT_HUNDREDTHS
}

/// Whether the number of results that holds for a search, its own or else
/// that of the handler, is at most 999.
pub open spec fn valid_num_res(handler: HandlerView, num_results: Option<u32>) -> bool {
    results_cap(handler.config, num_results) <= MAX_RESULTS
}

/// Why a search is refused before a request is built, if it is: first for
/// its minimum similarity, then for its number of results. For either, what
/// the search sets itself holds, else what the handler is set to.
pub open spec fn refusal_of(
    handler: HandlerView,
    num_results: Option<u32>,
    min_similarity: Option<int>,
) -> Option<ErrTypeView> {
    if !valid_min_sim(handler, min_similarity) {
        Some(
            ErrTypeView::InvalidParameters(
                "min_similarity must be less 100.0 and greater than 0.0."@,
            ),
        )
    } else if !valid_num_res(handler, num_results) {
        Some(ErrTypeView::InvalidParameters("num_results must be less than 999."@))
    } else {
        None
    }
}

/// Calls `Path::file_name` on `path` and returns the name if it is text.
/// Which part of a path is its last depends on the platform, so nothing is
/// said of the result.
#[verifier::external_body]
fn path_file_name(path: &str) -> (r: Option<String>) {
    match std::path::Path::new(path).file_name() {
        Some(name) => name.to_str().map(String::from),
        None => None,
    }
}

/// The name under which a local image is sent: the name that its path gives,
/// or `image.jpg` if it gives none.
pub fn upload_name(found: Option<String>) -> (r: String)
    ensures
        r@ == (match found {
            Some(name) => name@,
            None => DEFAULT_FILE_NAME@,
        }),
{
    match found {
        Some(name) => name,
        None => String::from_str(DEFAULT_FILE_NAME),
    }
}

impl Handler {
    /// Creates a handler with the given settings. It keeps every result and
    /// starts with the rate limits of a new account.
    pub fn new(
        api_key: &str,
        testmode: Option<bool>,
        db_mask: Option<Vec<Source>>,
        db_mask_i: Option<Vec<Source>>,
        db: Option<u32>,
        num_results: Option<u32>,
    ) -> (r: Handler)
        ensures
            r@ == (HandlerView {
                config: SearchConfigView {
                    api_key: api_key@,
                    testmode,
                    db_mask: sources_of(db_mask),
                    db_mask_i: sources_of(db_mask_i),
                    db,
                    num_results,
                },
                limits: new_limits(),
                min_similarity: 0,
                empty_filter_enabled: false,
            }),
    {
        Handler {
            config: SearchConfig {
                api_key: String::from_str(api_key),
                testmode,
                db_mask,
                db_mask_i,
                db,
                num_results,
            },
            limits: RateLimits::new(),
            min_similarity: Similarity::from_hundredths(0),
            empty_filter_enabled: false,
        }
    }

    /// The settings that stay as they are.
    pub fn config(&self) -> (r: &SearchConfig)
        ensures
            r@ == self@.config,
    {
        &self.config
    }

    /// Looks up the site with the given index.
    pub fn get_source(&self, index: u32) -> (r: Option<Source>)
        ensures
            r == Source::from_index(index as int),
    {
        Source::from_u32(index)
    }

    /// Sets the minimum similarity of a result where a search does not set
    /// its own. A new handler has 0.
    pub fn set_min_similarity(&mut self, min_similarity: Similarity)
        ensures
            final(self)@ == (HandlerView { min_similarity: min_similarity@, ..old(self)@ }),
    {
        self.min_similarity = min_similarity;
    }

    /// Sets whether results that name no address are left out. A new handler
    /// keeps them.
    pub fn set_empty_filter(&mut self, enabled: bool)
        ensures
            final(self)@ == (HandlerView { empty_filter_enabled: enabled, ..old(self)@ }),
    {
        self.empty_filter_enabled = enabled;
    }

    /// The minimum similarity of a result where a search does not set its
    /// own.
    pub fn get_min_similarity(&self) -> (r: Similarity)
        ensures
            r@ == self@.min_similarity,
    {
        self.min_similarity
    }

    /// Whether results that name no address are left out.
    pub fn get_empty_filter(&self) -> (r: bool)
        ensures
            r == self@.empty_filter_enabled,
    {
        self.empty_filter_enabled
    }

    /// The rate limits as the last answer gave them.
    pub fn get_limits(&self) -> (r: RateLimits)
        ensures
            r == self@.limits,
    {
        self.limits.read()
    }

    /// Gets the current short limit. By default this is 12.
    pub fn get_short_limit(&self) -> (r: u32)
        ensures
            r == self@.limits.short_limit,
    {
        self.limits.short_limit
    }

    /// Gets the current long limit. By default this is 200.
    pub fn get_long_limit(&self) -> (r: u32)
        ensures
            r == self@.limits.long_limit,
    {
        self.limits.long_limit
    }

    /// Gets what is left of the short limit.
    pub fn get_current_short_limit(&self) -> (r: u32)
        ensures
            r == self@.limits.short_left,
    {
        self.limits.short_left
    }

    /// Gets what is left of the long limit.
    pub fn get_current_long_limit(&self) -> (r: u32)
        ensures
            r == self@.limits.long_left,
    {
        self.limits.long_left
    }

    /// Whether the minimum similarity that holds for a search, its own or
    /// else that of the handler, lies between 0 and 100 percent.
    pub fn is_valid_min_sim(&self, min_similarity: Option<Similarity>) -> (r: bool)
        ensures
            r == valid_min_sim(self@, hundredths_of_option(min_similarity)),
    {
        match min_similarity {
            Some(own) => own.is_in_range(),
            None => self.min_similarity.is_in_range(),
        }
    }

    /// Whether the number of results that holds for a search, its own or
    /// else that of the handler, is at most 999.
    pub fn is_valid_num_res(&self, num_results: Option<u32>) -> (r: bool)
        ensures
            r == valid_num_res(self@, num_results),
    {
        self.config.results_cap(num_results) <= MAX_RESULTS
    }

    /// Builds the request of a search for the image at `image_path`.
    ///
    /// The search is refused, before anything else is done, if its minimum
    /// similarity or its number of results is out of bounds. The address of
    /// the request carries the query of the search. An image at a remote
    /// address is named in the query and the request has no body; any other
    /// image is a local file, which the request names for sending.
    pub fn build_request(
        &self,
        image_path: &str,
        num_results: Option<u32>,
        min_similarity: Option<Similarity>,
    ) -> (r: Result<Request, Error>)
        ensures
            match refusal_of(self@, num_results, hundredths_of_option(min_similarity)) {
                Some(refusal) => r matches Err(failure) && failure@ == refusal,
                None => match request_url(self@.config, image_path@, num_results) {
                    Some(text) => r matches Ok(request) && request.url@ == text && (is_remote(
                        image_path@,
                    ) ==> request.upload is None) && (!is_remote(image_path@) ==> (
                    request.upload matches Some(upload) && upload.path@ == image_path@)),
                    None => r matches Err(failure) && failure@ is InvalidParse && (parsed_text(
                        API_URL@,
                    ) is Some ==> failure@ == query_too_long()),
                },
            },
    {
        if !self.is_valid_min_sim(min_similarity) {
            return Err(
                Error::invalid_parameters(
                    String::from_str("min_similarity must be less 100.0 and greater than 0.0."),
                ),
            );
        }
        if !self.is_valid_num_res(num_results) {
            return Err(
                Error::invalid_parameters(String::from_str("num_results must be less than 999.")),
            );
        }
        let url = match self.config.generate_url(image_path, num_results) {
            Ok(url) => url,
            Err(failure) => {
                return Err(failure);
            },
        };
        let upload = if is_remote_path(image_path) {
            None
        } else {
            Some(
                Upload {
                    path: String::from_str(image_path),
                    file_name: upload_name(path_file_name(image_path)),
                },
            )
        };
        Ok(Request { url, upload })
    }

    /// Takes in the decoded answer to a search: brings the rate limits up to
    /// date and returns the results.
    ///
    /// `min_similarity` is the minimum similarity of the search, if it set
    /// its own. An answer with a negative status is a failure and leaves the
    /// handler as it was. Any other answer sets the rate limits, whatever
    /// its rows hold; it fails if a limit or a row cannot be read, and then
    /// returns no results.
    pub fn process_results(&mut self, response: SauceResult, min_similarity: Option<Similarity>) -> (r:
        Result<Vec<Sauce>, Error>)
        ensures
            final(self)@ == (HandlerView {
                limits: limits_after(old(self)@.limits, response@.header),
                ..old(self)@
            }),
            match r {
                Ok(found) => answer_of(
                    response@,
                    effective_min_similarity(old(self)@, hundredths_of_option(min_similarity)),
                    old(self)@.empty_filter_enabled,
                ) == Ok::<Seq<SauceView>, ErrTypeView>(sauce_views(found@)),
                Err(failure) => answer_of(
                    response@,
                    effective_min_similarity(old(self)@, hundredths_of_option(min_similarity)),
                    old(self)@.empty_filter_enabled,
                ) == Err::<Seq<SauceView>, ErrTypeView>(failure@),
            },
    {
        let threshold = match min_similarity {
            Some(own) => own,
            None => self.min_similarity,
        };
        normalize(response, &mut self.limits, threshold, self.empty_filter_enabled)
    }
}

/// A search that asks for more than 999 results is refused for its
/// parameters, whatever the settings of the handler and whatever else it
/// asks for.
pub proof fn lemma_too_many_results_are_refused(
    handler: HandlerView,
    num_results: u32,
    min_similarity: Option<int>,
)
    requires
        num_results > MAX_RESULTS,
    ensures
        refusal_of(handler, Some(num_results), min_similarity) matches Some(refusal)
            && refusal is InvalidParameters,
{
}

/// A search whose minimum similarity is below 0 or above 100 percent is
/// refused for its parameters, whatever the settings of the handler and
/// whatever else it asks for.
pub proof fn lemma_similarity_out_of_bounds_is_refused(
    handler: HandlerView,
    num_results: Option<u32>,
    min_similarity: int,
)
    requires
        min_similarity < MIN_PERCENT_HUNDREDTHS || min_similarity > MAX_PERCENT_HUNDREDTHS,
    ensures
        refusal_of(handler, num_results, Some(min_similarity)) matches Some(refusal)
            && refusal is InvalidParameters,
{
}

/// A search within bounds is not refused: it fails only if no address can
/// be made for it.
pub proof fn lemma_search_within_bounds_is_not_refused(
    handler: HandlerView,
    num_results: Option<u32>,
    min_similarity: Option<int>,
)
    requires
        valid_min_sim(handler, min_similarity),
        valid_num_res(handler, num_results),
    ensures
        refusal_of(handler, num_results, min_similarity) is None,
{
}

/// A request that is built asks for 999 results at most.
pub proof fn lemma_request_asks_for_no_more_than_allowed(
    handler: HandlerView,
    image_path: Seq<char>,
    num_results: Option<u32>,
    min_similarity: Option<int>,
)
    requires
        refusal_of(handler, num_results, min_similarity) is None,
    ensures
        results_cap(handler.config, num_results) <= MAX_RESULTS,
        exists|i: int|
            0 <= i < query_pairs_of(handler.config, image_path, num_results).len()
                && #[trigger] query_pairs_of(handler.config, image_path, num_results)[i] == (
                "numres"@,
                decimal_of(results_cap(handler.config, num_results) as nat),
            ),
{
    let pairs = query_pairs_of(handler.config, image_path, num_results);
    let front = seq![
        ("api_key"@, handler.config.api_key),
        ("output_type"@, decimal_of(JSON_OUTPUT as nat)),
    ] + db_pairs(handler.config.db) + mask_pairs(
        "dbmask"@,
        handler.config.db_mask,
    ) + mask_pairs("dbmaski"@, handler.config.db_mask_i);
    let at = front.len() + 1;
    assert(pairs[at as int] == (
        "numres"@,
        decimal_of(results_cap(handler.config, num_results) as nat),
    ));
}

} // verus!
