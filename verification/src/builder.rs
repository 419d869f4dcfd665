//! The builder of a handler: settings are given one by one, and what is not
//! given keeps its default.

use vstd::prelude::*;
use vstd::string::*;
use crate::handler::{hundredths_of_option, new_limits, Handler, HandlerView};
use crate::request::{sources_of, SearchConfigView};
use crate::response::text_of;
use crate::similarity::Similarity;
use crate::source::Source;

verus! {

/// Returns a list with the members of `list`, in their order.
fn copy_sources(list: &Vec<Source>) -> (r: Vec<Source>)
    ensures
        r@ == list@,
{
    let mut copy: Vec<Source> = Vec::new();
    let mut i: usize = 0;
    while i < list.len()
        invariant
            i <= list.len(),
            copy@ == list@.take(i as int),
        decreases list.len() - i,
    {
        copy.push(list[i]);
        i = i + 1;
    }
    copy
}

fn copy_selection(selection: &Option<Vec<Source>>) -> (r: Option<Vec<Source>>)
    ensures
        sources_of(r) == sources_of(*selection),
{
    match selection {
        Some(list) => Some(copy_sources(list)),
        None => None,
    }
}

/// A builder to create a Handler: settings are given one by one, and
/// `build` makes the handler of what was given.
#[derive(Debug, Clone)]
pub struct HandlerBuilder {
    api_key: Option<String>,
    testmode: Option<bool>,
    db_mask: Option<Vec<Source>>,
    db_mask_i: Option<Vec<Source>>,
    db: Option<u32>,
    num_results: Option<u32>,
    min_similarity: Option<Similarity>,
    empty_filter_enabled: Option<bool>,
}

/// What a `HandlerBuilder` holds, as mathematical values.
pub struct HandlerBuilderView {
    pub api_key: Option<Seq<char>>,
    pub testmode: Option<bool>,
    pub db_mask: Option<Seq<Source>>,
    pub db_mask_i: Option<Seq<Source>>,
    pub db: Option<u32>,
    pub num_results: Option<u32>,
    pub min_similarity: Option<int>,
    pub empty_filter_enabled: Option<bool>,
}

impl View for HandlerBuilder {
    type V = HandlerBuilderView;

    closed spec fn view(&self) -> HandlerBuilderView {
        HandlerBuilderView {
            api_key: text_of(self.api_key),
            testmode: self.testmode,
            db_mask: sources_of(self.db_mask),
            db_mask_i: sources_of(self.db_mask_i),
            db: self.db,
            num_results: self.num_results,
            min_similarity: hundredths_of_option(self.min_similarity),
            empty_filter_enabled: self.empty_filter_enabled,
        }
    }
}

/// A builder to which nothing has been given yet.
pub open spec fn empty_builder() -> HandlerBuilderView {
    HandlerBuilderView {
        api_key: None,
        testmode: None,
        db_mask: None,
        db_mask_i: None,
        db: None,
        num_results: None,
        min_similarity: None,
        empty_filter_enabled: None,
    }
}

impl Default for HandlerBuilder {
    fn default() -> (r: HandlerBuilder)
        ensures
            r@ == empty_builder(),
    {
        HandlerBuilder {
            api_key: None,
            testmode: None,
            db_mask: None,
            db_mask_i: None,
            db: None,
            num_results: None,
            min_similarity: None,
            empty_filter_enabled: None,
        }
    }
}

impl HandlerBuilder {
    /// Sets the API key used for searches. If this is not set then a blank
    /// API key is used.
    pub fn api_key(&mut self, api_key: &str) -> (r: &mut HandlerBuilder)
        ensures
            (*r)@ == (HandlerBuilderView { api_key: Some(api_key@), ..old(self)@ }),
            *final(self) == *final(r),
    {
        self.api_key = Some(String::from_str(api_key));
        self
    }

    /// Sets whether testmode should be enabled on searches. If this is on,
    /// then each index will output at most one result. If this is unset then
    /// it is off.
    pub fn testmode(&mut self, testmode: bool) -> (r: &mut HandlerBuilder)
        ensures
            (*r)@ == (HandlerBuilderView { testmode: Some(testmode), ..old(self)@ }),
            *final(self) == *final(r),
    {
        self.testmode = Some(testmode);
        self
    }

    /// Sets which sites are included in a search. If neither this nor `db`
    /// is set, every index is searched.
    pub fn db_mask(&mut self, db_mask: Vec<Source>) -> (r: &mut HandlerBuilder)
        ensures
            (*r)@ == (HandlerBuilderView { db_mask: Some(db_mask@), ..old(self)@ }),
            *final(self) == *final(r),
    {
        self.db_mask = Some(db_mask);
        self
    }

    /// Sets which sites are left out of a search.
    pub fn db_mask_i(&mut self, db_mask_i: Vec<Source>) -> (r: &mut HandlerBuilder)
        ensures
            (*r)@ == (HandlerBuilderView { db_mask_i: Some(db_mask_i@), ..old(self)@ }),
            *final(self) == *final(r),
    {
        self.db_mask_i = Some(db_mask_i);
        self
    }

    /// Sets the one index to be searched. 999 stands for every index.
    pub fn db(&mut self, db: u32) -> (r: &mut HandlerBuilder)
        ensures
            (*r)@ == (HandlerBuilderView { db: Some(db), ..old(self)@ }),
            *final(self) == *final(r),
    {
        self.db = Some(db);
        self
    }

    /// Sets the number of results that a search asks for where it does not
    /// say so itself. If this is not set, a search asks for 999.
    pub fn num_results(&mut self, num_results: u32) -> (r: &mut HandlerBuilder)
        ensures
            (*r)@ == (HandlerBuilderView { num_results: Some(num_results), ..old(self)@ }),
            *final(self) == *final(r),
    {
        self.num_results = Some(num_results);
        self
    }

    /// Sets the minimum similarity of a result where a search does not say
    /// so itself. If this is not set, it is 0.
    pub fn min_similarity(&mut self, min_similarity: Similarity) -> (r: &mut HandlerBuilder)
        ensures
            (*r)@ == (HandlerBuilderView { min_similarity: Some(min_similarity@), ..old(self)@ }),
            *final(self) == *final(r),
    {
        self.min_similarity = Some(min_similarity);
        self
    }

    /// Sets whether results that name no address are left out. If this is
    /// not set, they are kept.
    pub fn empty_filter_enabled(&mut self, empty_filter_enabled: bool) -> (r: &mut HandlerBuilder)
        ensures
            (*r)@ == (HandlerBuilderView {
                empty_filter_enabled: Some(empty_filter_enabled),
                ..old(self)@
            }),
            *final(self) == *final(r),
    {
        self.empty_filter_enabled = Some(empty_filter_enabled);
        self
    }

    /// Builds the handler of what has been set.
    pub fn build(&self) -> (r: Handler)
        ensures
            r@ == built_of(self@),
    {
        let api_key: &str = match &self.api_key {
            Some(key) => key.as_str(),
            None => "",
        };
        proof {
            reveal_strlit("");
            assert(""@ =~= Seq::<char>::empty());
        }
        let mut handler = Handler::new(
            api_key,
            self.testmode,
            copy_selection(&self.db_mask),
            copy_selection(&self.db_mask_i),
            self.db,
            self.num_results,
        );
        if let Some(min_similarity) = self.min_similarity {
            handler.set_min_similarity(min_similarity);
        }
        if let Some(enabled) = self.empty_filter_enabled {
            handler.set_empty_filter(enabled);
        }
        handler
    }
}

/// The handler that `build` makes of a builder: what was not set is an
/// empty key, a search of every index, 0 as the minimum similarity and no
/// filter. The rate limits are those of a new handler.
pub open spec fn built_of(builder: HandlerBuilderView) -> HandlerView {
    HandlerView {
        config: SearchConfigView {
            api_key: match builder.api_key {
                Some(key) => key,
                None => Seq::empty(),
            },
            testmode: builder.testmode,
            db_mask: builder.db_mask,
            db_mask_i: builder.db_mask_i,
            db: builder.db,
            num_results: builder.num_results,
        },
        limits: new_limits(),
        min_similarity: match builder.min_similarity {
            Some(min_similarity) => min_similarity,
            None => 0,
        },
        empty_filter_enabled: match builder.empty_filter_enabled {
            Some(enabled) => enabled,
            None => false,
        },
    }
}

} // verus!
