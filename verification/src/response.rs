//! The answer of the service, and the results that are made of it.
//!
//! An answer arrives decoded: a header and, if the service found anything, a
//! list of rows. A row becomes a `Sauce` if its similarity passes the
//! threshold and, where empty results are filtered out, if it names at least
//! one address. The results keep the order of the rows.

use vstd::prelude::*;
use vstd::string::*;
use serde_json::Value;
use crate::error::{ErrTypeView, Error};
use crate::json::{to_value, value_of_fields};
use crate::limits::RateLimits;
use crate::similarity::{parse_spec, Similarity};
use crate::source::Source;
use crate::text::{
    chars_of, find_char, first_index, parse_u32, parse_u32_in, parse_u32_spec, prefixed,
};

verus! {

/// The header of an answer.
#[derive(Clone, Debug, PartialEq)]
pub struct ResponseHeader {
    /// The status of the search; negative if the service refused it.
    pub status: i32,
    /// What the service has to say about the status.
    pub message: String,
    /// How many searches the short window allows, in decimal notation.
    pub short_limit: String,
    /// How many searches the long window allows, in decimal notation.
    pub long_limit: String,
    /// How many searches are left in the short window.
    pub short_remaining: u32,
    /// How many searches are left in the long window.
    pub long_remaining: u32,
}

/// The header of one row of an answer.
#[derive(Clone, Debug, PartialEq)]
pub struct ResultHeader {
    /// The similarity in percent, in decimal notation.
    pub similarity: String,
    /// The address of a small copy of the image that was found.
    pub thumbnail: String,
    /// The number under which the site's index holds the image.
    pub index_id: u32,
    /// The label of the index, such as `Index #5: Pixiv Images - 1.jpg`.
    pub index_name: String,
}

/// What one row of an answer says of the image that was found.
#[derive(Clone, Debug, PartialEq)]
pub struct ResultData {
    /// Addresses at which the image can be seen.
    pub ext_urls: Vec<String>,
    /// The title of the image.
    pub title: Option<String>,
    /// Whatever else the site's index holds about the image.
    pub additional_fields: Option<Value>,
    /// Where the image comes from.
    pub source: Option<String>,
    /// Who made the image.
    pub creator: Option<String>,
    /// The English name of the work.
    pub eng_name: Option<String>,
    /// The Japanese name of the work.
    pub jp_name: Option<String>,
}

/// One row of an answer.
#[derive(Clone, Debug, PartialEq)]
pub struct ResultRow {
    pub header: ResultHeader,
    pub data: ResultData,
}

/// A decoded answer of the service.
#[derive(Clone, Debug, PartialEq)]
pub struct SauceResult {
    pub header: ResponseHeader,
    /// The rows, if the answer has any.
    pub results: Option<Vec<ResultRow>>,
}

/// A result of a search: an image that the service holds to match.
#[derive(Clone, Debug, PartialEq)]
pub struct Sauce {
    /// Addresses at which the image can be seen.
    pub ext_urls: Vec<String>,
    /// The title of the image.
    pub title: Option<String>,
    /// The name of the site, or the label of its index if the site is not
    /// known.
    pub site: String,
    /// The index of the site.
    pub index: u32,
    /// The number under which the site's index holds the image.
    pub index_id: u32,
    /// How sure the service is of the match.
    pub similarity: Similarity,
    /// The address of a small copy of the image.
    pub thumbnail: String,
    /// Whatever else the site's index holds about the image.
    pub additional_fields: Option<Value>,
    /// Where the image comes from.
    pub source: Option<String>,
    /// Who made the image.
    pub creator: Option<String>,
    /// The English name of the work.
    pub eng_name: Option<String>,
    /// The Japanese name of the work.
    pub jp_name: Option<String>,
}

/// The characters of a text that may be missing.
pub open spec fn text_of(text: Option<String>) -> Option<Seq<char>> {
    match text {
        Some(t) => Some(t@),
        None => None,
    }
}

/// The characters of each text of a list.
pub open spec fn texts_of(list: Seq<String>) -> Seq<Seq<char>> {
    list.map_values(|t: String| t@)
}

/// What a `ResponseHeader` holds, as mathematical values.
pub struct ResponseHeaderView {
    pub status: int,
    pub message: Seq<char>,
    pub short_limit: Seq<char>,
    pub long_limit: Seq<char>,
    pub short_remaining: u32,
    pub long_remaining: u32,
}

/// What a `ResultRow` holds, as mathematical values.
pub struct ResultRowView {
    pub similarity: Seq<char>,
    pub thumbnail: Seq<char>,
    pub index_id: u32,
    pub index_name: Seq<char>,
    pub ext_urls: Seq<Seq<char>>,
    pub title: Option<Seq<char>>,
    pub additional_fields: Option<Value>,
    pub source: Option<Seq<char>>,
    pub creator: Option<Seq<char>>,
    pub eng_name: Option<Seq<char>>,
    pub jp_name: Option<Seq<char>>,
}

/// What a `SauceResult` holds, as mathematical values.
pub struct SauceResultView {
    pub header: ResponseHeaderView,
    pub results: Option<Seq<ResultRowView>>,
}

/// What a `Sauce` holds, as mathematical values.
pub struct SauceView {
    pub ext_urls: Seq<Seq<char>>,
    pub title: Option<Seq<char>>,
    pub site: Seq<char>,
    pub index: u32,
    pub index_id: u32,
    /// The similarity in hundredths of a percent.
    pub similarity: int,
    pub thumbnail: Seq<char>,
    pub additional_fields: Option<Value>,
    pub source: Option<Seq<char>>,
    pub creator: Option<Seq<char>>,
    pub eng_name: Option<Seq<char>>,
    pub jp_name: Option<Seq<char>>,
}

impl View for ResponseHeader {
    type V = ResponseHeaderView;

    open spec fn view(&self) -> ResponseHeaderView {
        ResponseHeaderView {
            status: self.status as int,
            message: self.message@,
            short_limit: self.short_limit@,
            long_limit: self.long_limit@,
            short_remaining: self.short_remaining,
            long_remaining: self.long_remaining,
        }
    }
}

impl View for ResultRow {
    type V = ResultRowView;

    open spec fn view(&self) -> ResultRowView {
        ResultRowView {
            similarity: self.header.similarity@,
            thumbnail: self.header.thumbnail@,
            index_id: self.header.index_id,
            index_name: self.header.index_name@,
            ext_urls: texts_of(self.data.ext_urls@),
            title: text_of(self.data.title),
            additional_fields: self.data.additional_fields,
            source: text_of(self.data.source),
            creator: text_of(self.data.creator),
            eng_name: text_of(self.data.eng_name),
            jp_name: text_of(self.data.jp_name),
        }
    }
}

/// The rows of a list, as mathematical values.
pub open spec fn row_views(rows: Seq<ResultRow>) -> Seq<ResultRowView> {
    rows.map_values(|row: ResultRow| row@)
}

impl View for SauceResult {
    type V = SauceResultView;

    open spec fn view(&self) -> SauceResultView {
        SauceResultView {
            header: self.header@,
            results: match self.results {
                Some(rows) => Some(row_views(rows@)),
                None => None,
            },
        }
    }
}

impl View for Sauce {
    type V = SauceView;

    open spec fn view(&self) -> SauceView {
        SauceView {
            ext_urls: texts_of(self.ext_urls@),
            title: text_of(self.title),
            site: self.site@,
            index: self.index,
            index_id: self.index_id,
            similarity: self.similarity@,
            thumbnail: self.thumbnail@,
            additional_fields: self.additional_fields,
            source: text_of(self.source),
            creator: text_of(self.creator),
            eng_name: text_of(self.eng_name),
            jp_name: text_of(self.jp_name),
        }
    }
}

/// The results of a list, as mathematical values.
pub open spec fn sauce_views(found: Seq<Sauce>) -> Seq<SauceView> {
    found.map_values(|sauce: Sauce| sauce@)
}

impl Sauce {
    /// Whether the result names no address at which the image can be seen.
    pub fn has_empty_url(&self) -> (r: bool)
        ensures
            r == (self@.ext_urls.len() == 0),
    {
        self.ext_urls.len() == 0
    }
}

/// The digits that the label of an index gives for the index: of the label
/// up to its first colon, what stands between the first number sign and the
/// next one, or the end. `None` if there is no number sign before the colon.
pub open spec fn label_index_text(label: Seq<char>) -> Option<Seq<char>> {
    let head = label.take(first_index(label, ':'));
    let mark = first_index(head, '#');
    if mark < head.len() {
        let rest = head.skip(mark + 1);
        Some(rest.take(first_index(rest, '#')))
    } else {
        None
    }
}

/// The index that the label of an index names, if it names one.
pub open spec fn label_index(label: Seq<char>) -> Option<u32> {
    match label_index_text(label) {
        Some(digits) => parse_u32_spec(digits),
        None => None,
    }
}

/// Reads the index of a site from the label of its index, such as 5 from
/// `Index #5: Pixiv Images - 1.jpg`.
pub fn index_of_label(label: &str) -> (r: Option<u32>)
    ensures
        r == label_index(label@),
{
    let chars = chars_of(label);
    let colon = find_char(&chars, 0, chars.len(), ':');
    let mark = find_char(&chars, 0, colon, '#');
    let ghost head = label@.take(first_index(label@, ':'));
    proof {
        assert(chars@.subrange(0, chars@.len() as int) =~= label@);
    }
    if mark == colon {
        return None;
    }
    let next = find_char(&chars, mark + 1, colon, '#');
    proof {
        let rest = head.skip(mark + 1);
        assert(rest =~= chars@.subrange(mark + 1, colon as int));
        assert(rest.take(first_index(rest, '#')) =~= chars@.subrange(mark + 1, next as int));
    }
    parse_u32_in(&chars, mark + 1, next)
}

/// Whether a row with the given similarity and number of addresses is let
/// through: the similarity is at least the threshold, and where empty results
/// are filtered out the row names an address.
pub open spec fn admits(threshold: int, empty_filter: bool, similarity: int, urls: nat) -> bool {
    similarity >= threshold && (!empty_filter || urls > 0)
}

/// The failure that a row with an unreadable similarity gives.
pub open spec fn bad_similarity(text: Seq<char>) -> ErrTypeView {
    ErrTypeView::InvalidParse("the similarity is not a decimal number: "@ + text)
}

/// The failure that a row gives whose label names no index.
pub open spec fn bad_label(label: Seq<char>) -> ErrTypeView {
    ErrTypeView::InvalidParse("the index name holds no index: "@ + label)
}

/// The result that is made of a row that was let through.
pub open spec fn sauce_of(row: ResultRowView, similarity: int, index: u32) -> SauceView {
    let site = Source::from_index(index as int);
    SauceView {
        ext_urls: row.ext_urls,
        title: row.title,
        site: match site {
            Some(known) => known.name_spec(),
            None => row.index_name,
        },
        index,
        index_id: row.index_id,
        similarity,
        thumbnail: row.thumbnail,
        additional_fields: match site {
            Some(_) => value_of_fields(row.additional_fields),
            None => None,
        },
        source: row.source,
        creator: row.creator,
        eng_name: row.eng_name,
        jp_name: row.jp_name,
    }
}

/// What becomes of one row.
pub enum RowOutcome {
    /// The row cannot be read, which fails the whole answer.
    Malformed(ErrTypeView),
    /// The row is left out.
    Dropped,
    /// The row gives a result.
    Kept(SauceView),
}

/// What becomes of `row` under the given threshold and filter. The
/// similarity is read first, so a row with an unreadable similarity is
/// malformed even if the filter would leave it out; the label is read only
/// of a row that is let through.
pub open spec fn row_outcome(row: ResultRowView, threshold: int, empty_filter: bool) -> RowOutcome {
    match parse_spec(row.similarity) {
        None => RowOutcome::Malformed(bad_similarity(row.similarity)),
        Some(similarity) => if !admits(threshold, empty_filter, similarity, row.ext_urls.len()) {
            RowOutcome::Dropped
        } else {
            match label_index(row.index_name) {
                None => RowOutcome::Malformed(bad_label(row.index_name)),
                Some(index) => RowOutcome::Kept(sauce_of(row, similarity, index)),
            }
        },
    }
}

/// The results that are made of `rows`, in the order of the rows, or the
/// failure of the first row that cannot be read.
pub open spec fn normalized(rows: Seq<ResultRowView>, threshold: int, empty_filter: bool) -> Result<
    Seq<SauceView>,
    ErrTypeView,
>
    decreases rows.len(),
{
    if rows.len() == 0 {
        Ok(Seq::empty())
    } else {
        match normalized(rows.drop_last(), threshold, empty_filter) {
            Err(failure) => Err(failure),
            Ok(found) => match row_outcome(rows.last(), threshold, empty_filter) {
                RowOutcome::Malformed(failure) => Err(failure),
                RowOutcome::Dropped => Ok(found),
                RowOutcome::Kept(sauce) => Ok(found.push(sauce)),
            },
        }
    }
}

/// Makes a result of one row, leaves the row out, or fails on it.
pub fn normalize_row(row: ResultRow, threshold: Similarity, empty_filter: bool) -> (r: Result<
    Option<Sauce>,
    Error,
>)
    ensures
        match r {
            Ok(Some(sauce)) => row_outcome(row@, threshold@, empty_filter) == RowOutcome::Kept(
                sauce@,
            ),
            Ok(None) => row_outcome(row@, threshold@, empty_filter) == RowOutcome::Dropped,
            Err(failure) => row_outcome(row@, threshold@, empty_filter) == RowOutcome::Malformed(
                failure@,
            ),
        },
{
    let ResultRow { header, data } = row;
    let ResultHeader { similarity: similarity_text, thumbnail, index_id, index_name } = header;
    let ResultData { ext_urls, title, additional_fields, source, creator, eng_name, jp_name } =
        data;
    let similarity = match Similarity::parse(similarity_text.as_str()) {
        None => {
            return Err(
                Error::invalid_parse(
                    prefixed("the similarity is not a decimal number: ", &similarity_text),
                ),
            );
        },
        Some(similarity) => similarity,
    };
    if !similarity.at_least(&threshold) || (empty_filter && ext_urls.len() == 0) {
        return Ok(None);
    }
    let index = match index_of_label(index_name.as_str()) {
        None => {
            return Err(
                Error::invalid_parse(prefixed("the index name holds no index: ", &index_name)),
            );
        },
        Some(index) => index,
    };
    let sauce = match Source::from_u32(index) {
        Some(known) => Sauce {
            ext_urls,
            title,
            site: String::from_str(known.name()),
            index,
            index_id,
            similarity,
            thumbnail,
            additional_fields: to_value(&additional_fields),
            source,
            creator,
            eng_name,
            jp_name,
        },
        None => Sauce {
            ext_urls,
            title,
            site: index_name,
            index,
            index_id,
            similarity,
            thumbnail,
            additional_fields: None,
            source,
            creator,
            eng_name,
            jp_name,
        },
    };
    Ok(Some(sauce))
}

/// Makes the results of the rows of an answer: of each row that is let
/// through one result, in the order of the rows. Fails on the first row that
/// cannot be read, and then returns no results at all.
pub fn normalize_rows(rows: Vec<ResultRow>, threshold: Similarity, empty_filter: bool) -> (r:
    Result<Vec<Sauce>, Error>)
    ensures
        match r {
            Ok(found) => normalized(row_views(rows@), threshold@, empty_filter) == Ok::<
                Seq<SauceView>,
                ErrTypeView,
            >(sauce_views(found@)),
            Err(failure) => normalized(row_views(rows@), threshold@, empty_filter) == Err::<
                Seq<SauceView>,
                ErrTypeView,
            >(failure@),
        },
{
    let ghost all = row_views(rows@);
    let mut found: Vec<Sauce> = Vec::new();
    assert(sauce_views(found@) =~= Seq::<SauceView>::empty());
    for row in it: rows
        invariant
            all == row_views(it.seq()),
            normalized(all.take(it.index() as int), threshold@, empty_filter) == Ok::<
                Seq<SauceView>,
                ErrTypeView,
            >(sauce_views(found@)),
    {
        let ghost done = all.take(it.index() as int);
        let ghost next = all.take(it.index() + 1);
        proof {
            assert(next.drop_last() =~= done);
        }
        match normalize_row(row, threshold, empty_filter) {
            Err(failure) => {
                proof {
                    lemma_failure_stays(all, it.index() + 1, threshold@, empty_filter);
                }
                return Err(failure);
            },
            Ok(None) => {},
            Ok(Some(sauce)) => {
                let ghost before = sauce_views(found@);
                found.push(sauce);
                assert(sauce_views(found@) =~= before.push(sauce@));
            },
        }
    }
    proof {
        assert(all.take(all.len() as int) =~= all);
    }
    Ok(found)
}

/// Once a row cannot be read, the rows after it change nothing: the failure
/// of the first such row is the failure of the whole list.
pub proof fn lemma_failure_stays(
    rows: Seq<ResultRowView>,
    upto: int,
    threshold: int,
    empty_filter: bool,
)
    requires
        0 <= upto <= rows.len(),
        normalized(rows.take(upto), threshold, empty_filter) is Err,
    ensures
        normalized(rows, threshold, empty_filter) == normalized(
            rows.take(upto),
            threshold,
            empty_filter,
        ),
    decreases rows.len() - upto,
{
    if upto < rows.len() {
        let longer = rows.take(upto + 1);
        assert(longer.drop_last() =~= rows.take(upto));
        assert(normalized(longer, threshold, empty_filter) == normalized(
            rows.take(upto),
            threshold,
            empty_filter,
        ));
        lemma_failure_stays(rows, upto + 1, threshold, empty_filter);
    } else {
        assert(rows.take(upto) =~= rows);
    }
}

/// The failure that an answer gives in which a limit cannot be read.
pub open spec fn bad_limit(text: Seq<char>) -> ErrTypeView {
    ErrTypeView::InvalidParse("the limit is not a number: "@ + text)
}

/// The rate limits after an answer with the given header has been taken in.
/// An answer with a negative status changes nothing. Any other answer gives
/// what is left in the two windows; it gives the short limit if that can be
/// read, and the long limit if both can be read.
pub open spec fn limits_after(limits: RateLimits, header: ResponseHeaderView) -> RateLimits {
    if header.status < 0 {
        limits
    } else {
        RateLimits {
            short_limit: match parse_u32_spec(header.short_limit) {
                Some(limit) => limit,
                None => limits.short_limit,
            },
            long_limit: match (parse_u32_spec(header.short_limit), parse_u32_spec(header.long_limit)) {
                (Some(_), Some(limit)) => limit,
                _ => limits.long_limit,
            },
            short_left: header.short_remaining,
            long_left: header.long_remaining,
        }
    }
}

/// What an answer comes to: the failure that the service reports with a
/// negative status, the failure of a limit or a row that cannot be read, or
/// the results of the rows. An answer without rows gives no results and is
/// no failure.
pub open spec fn answer_of(response: SauceResultView, threshold: int, empty_filter: bool) -> Result<
    Seq<SauceView>,
    ErrTypeView,
> {
    if response.header.status < 0 {
        Err(
            ErrTypeView::InvalidCode {
                code: response.header.status,
                message: response.header.message,
            },
        )
    } else if parse_u32_spec(response.header.short_limit) is None {
        Err(bad_limit(response.header.short_limit))
    } else if parse_u32_spec(response.header.long_limit) is None {
        Err(bad_limit(response.header.long_limit))
    } else {
        match response.results {
            Some(rows) => normalized(rows, threshold, empty_filter),
            None => Ok(Seq::empty()),
        }
    }
}

/// Takes in a decoded answer: brings the rate limits up to date and makes
/// the results of the rows, as `limits_after` and `answer_of` say.
pub fn normalize(
    response: SauceResult,
    limits: &mut RateLimits,
    threshold: Similarity,
    empty_filter: bool,
) -> (r: Result<Vec<Sauce>, Error>)
    ensures
        *final(limits) == limits_after(*old(limits), response@.header),
        match r {
            Ok(found) => answer_of(response@, threshold@, empty_filter) == Ok::<
                Seq<SauceView>,
                ErrTypeView,
            >(sauce_views(found@)),
            Err(failure) => answer_of(response@, threshold@, empty_filter) == Err::<
                Seq<SauceView>,
                ErrTypeView,
            >(failure@),
        },
{
    let SauceResult { header, results } = response;
    if header.status < 0 {
        return Err(Error::invalid_code(header.status, header.message));
    }
    let before = limits.read();
    limits.update(
        before.short_limit,
        before.long_limit,
        header.short_remaining,
        header.long_remaining,
    );
    let short_limit = match parse_u32(header.short_limit.as_str()) {
        Some(limit) => limit,
        None => {
            return Err(
                Error::invalid_parse(prefixed("the limit is not a number: ", &header.short_limit)),
            );
        },
    };
    limits.update(short_limit, before.long_limit, header.short_remaining, header.long_remaining);
    let long_limit = match parse_u32(header.long_limit.as_str()) {
        Some(limit) => limit,
        None => {
            return Err(
                Error::invalid_parse(prefixed("the limit is not a number: ", &header.long_limit)),
            );
        },
    };
    limits.update(short_limit, long_limit, header.short_remaining, header.long_remaining);
    match results {
        Some(rows) => normalize_rows(rows, threshold, empty_filter),
        None => {
            let found: Vec<Sauce> = Vec::new();
            assert(sauce_views(found@) =~= Seq::<SauceView>::empty());
            Ok(found)
        },
    }
}

/// An answer with a negative status fails with that status and the message
/// of the service, as they came, and leaves the rate limits as they were.
pub proof fn lemma_refusal_changes_nothing(
    response: SauceResultView,
    limits: RateLimits,
    threshold: int,
    empty_filter: bool,
)
    requires
        response.header.status < 0,
    ensures
        answer_of(response, threshold, empty_filter) == Err::<Seq<SauceView>, ErrTypeView>(
            ErrTypeView::InvalidCode {
                code: response.header.status,
                message: response.header.message,
            },
        ),
        limits_after(limits, response.header) == limits,
{
}

/// After an answer with a status that is not negative, what is left in the
/// two windows is what that answer reported, whatever its rows hold and
/// however many of them give a result.
pub proof fn lemma_answer_sets_what_is_left(limits: RateLimits, header: ResponseHeaderView)
    requires
        header.status >= 0,
    ensures
        limits_after(limits, header).short_left == header.short_remaining,
        limits_after(limits, header).long_left == header.long_remaining,
{
}

/// Of two answers taken in one after the other, neither with a negative
/// status, the second leaves no more in a window than the first did, so long
/// as the service itself reports no more: the numbers are those of the
/// service, and nothing here adds to them.
pub proof fn lemma_what_is_left_never_grows(
    limits: RateLimits,
    first: ResponseHeaderView,
    second: ResponseHeaderView,
)
    requires
        first.status >= 0,
        second.status >= 0,
        second.short_remaining <= first.short_remaining,
        second.long_remaining <= first.long_remaining,
    ensures
        limits_after(limits_after(limits, first), second).short_left <= limits_after(
            limits,
            first,
        ).short_left,
        limits_after(limits_after(limits, first), second).long_left <= limits_after(
            limits,
            first,
        ).long_left,
{
}

/// The result that `row` gives, if it gives one.
pub open spec fn kept_of(threshold: int, empty_filter: bool) -> spec_fn(ResultRowView) -> Option<
    SauceView,
> {
    |row: ResultRowView|
        match row_outcome(row, threshold, empty_filter) {
            RowOutcome::Kept(sauce) => Some(sauce),
            _ => None,
        }
}

/// Where no row fails, the results are those of the rows that are let
/// through, one for one and in the order of the rows: nothing is sorted and
/// nothing is left out for being there twice.
pub proof fn lemma_results_are_kept_rows(
    rows: Seq<ResultRowView>,
    threshold: int,
    empty_filter: bool,
)
    requires
        normalized(rows, threshold, empty_filter) is Ok,
    ensures
        normalized(rows, threshold, empty_filter) == Ok::<Seq<SauceView>, ErrTypeView>(
            rows.filter_map(kept_of(threshold, empty_filter)),
        ),
        forall|i: int|
            0 <= i < rows.len() ==> !(row_outcome(#[trigger] rows[i], threshold, empty_filter)
                is Malformed),
    decreases rows.len(),
{
    if rows.len() > 0 {
        let front = rows.drop_last();
        lemma_results_are_kept_rows(front, threshold, empty_filter);
        assert forall|i: int| 0 <= i < rows.len() implies !(row_outcome(
            #[trigger] rows[i],
            threshold,
            empty_filter,
        ) is Malformed) by {
            if i < front.len() {
                assert(rows[i] == front[i]);
            }
        }
        let found = normalized(front, threshold, empty_filter)->Ok_0;
        match row_outcome(rows.last(), threshold, empty_filter) {
            RowOutcome::Kept(sauce) => {
                assert(found.push(sauce) =~= found + seq![sauce]);
            },
            _ => {},
        }
    }
}

/// Where a row fails, the failure is that of the first row that cannot be
/// read.
pub proof fn lemma_failure_is_of_first_malformed(
    rows: Seq<ResultRowView>,
    threshold: int,
    empty_filter: bool,
) -> (at: int)
    requires
        normalized(rows, threshold, empty_filter) is Err,
    ensures
        0 <= at < rows.len(),
        row_outcome(rows[at], threshold, empty_filter) == RowOutcome::Malformed(
            normalized(rows, threshold, empty_filter)->Err_0,
        ),
        forall|j: int|
            0 <= j < at ==> !(row_outcome(#[trigger] rows[j], threshold, empty_filter)
                is Malformed),
    decreases rows.len(),
{
    let front = rows.drop_last();
    if normalized(front, threshold, empty_filter) is Err {
        let at = lemma_failure_is_of_first_malformed(front, threshold, empty_filter);
        assert forall|j: int| 0 <= j < at implies !(row_outcome(
            #[trigger] rows[j],
            threshold,
            empty_filter,
        ) is Malformed) by {
            assert(rows[j] == front[j]);
        }
        at
    } else {
        lemma_results_are_kept_rows(front, threshold, empty_filter);
        assert forall|j: int| 0 <= j < rows.len() - 1 implies !(row_outcome(
            #[trigger] rows[j],
            threshold,
            empty_filter,
        ) is Malformed) by {
            assert(rows[j] == front[j]);
        }
        rows.len() - 1
    }
}

/// Every result passes the filter: its similarity is at least the threshold,
/// and where empty results are filtered out it names an address.
pub proof fn lemma_results_pass_filter(
    rows: Seq<ResultRowView>,
    threshold: int,
    empty_filter: bool,
    k: int,
)
    requires
        normalized(rows, threshold, empty_filter) is Ok,
        0 <= k < normalized(rows, threshold, empty_filter)->Ok_0.len(),
    ensures
        normalized(rows, threshold, empty_filter)->Ok_0[k].similarity >= threshold,
        empty_filter ==> normalized(rows, threshold, empty_filter)->Ok_0[k].ext_urls.len() > 0,
    decreases rows.len(),
{
    let front = rows.drop_last();
    let found = normalized(front, threshold, empty_filter)->Ok_0;
    if k < found.len() {
        lemma_results_pass_filter(front, threshold, empty_filter, k);
    }
}

/// Where empty results are filtered out, a row that names no address gives
/// no result, whatever its similarity.
pub proof fn lemma_empty_row_is_left_out(row: ResultRowView, threshold: int)
    requires
        row.ext_urls.len() == 0,
    ensures
        !(row_outcome(row, threshold, true) is Kept),
{
}

/// There are never more results than rows.
pub proof fn lemma_no_more_results_than_rows(
    rows: Seq<ResultRowView>,
    threshold: int,
    empty_filter: bool,
)
    requires
        normalized(rows, threshold, empty_filter) is Ok,
    ensures
        normalized(rows, threshold, empty_filter)->Ok_0.len() <= rows.len(),
    decreases rows.len(),
{
    if rows.len() > 0 {
        lemma_no_more_results_than_rows(rows.drop_last(), threshold, empty_filter);
    }
}

} // verus!
