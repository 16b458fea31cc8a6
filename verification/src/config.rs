//! The configuration of a run, and the context that is built from it once.

use crate::address::{parsed_url, Site, SiteError};
use crate::coordinator::{page_count, ConfigError, Coordinator};
use crate::extract::{compiled_rules, Field, SelectorRules};
use crate::model::{FailurePolicy, PipelineView};
use vstd::prelude::*;

verus! {

/// The number of permits of the default configuration.
pub const MAX_TASK: usize = 8;

/// The first page of the default configuration.
pub const FIRST_PAGE: usize = 1;

/// The page after the last one of the default configuration.
pub const END_PAGE: usize = 12;

/// What a run needs to know: the site, the pages from `first_page` up to,
/// not including, `end_page`, the number of permits, and the failure policy.
pub struct Config {
    pub base_url: String,
    pub first_page: usize,
    pub end_page: usize,
    pub max_concurrent: usize,
    pub policy: FailurePolicy,
}

/// Why a configuration could not be used.
#[derive(Debug, Clone, Copy, PartialEq, Eq, Structural)]
pub enum SetupError {
    /// The base address is not usable.
    Site(SiteError),
    /// The pattern of this field is not a selector.
    Rules(Field),
    /// The range of pages or the limit is not usable.
    Run(ConfigError),
}

/// The context of a run: the site for the fetcher, and the coordinator with
/// the compiled selector rules.
pub struct Pipeline {
    pub site: Site,
    pub coordinator: Coordinator,
}

/// What setting up a configuration gives: the first state of the run, or
/// the first thing that is wrong, in the order base address, selector rules,
/// limit, first page.
pub open spec fn set_up_result(config: Config) -> Result<PipelineView, SetupError> {
    if parsed_url(config.base_url@) is None {
        Err(SetupError::Site(SiteError::InvalidBase))
    } else {
        match compiled_rules(".quote"@, ".text"@, ".author"@, ".tag"@) {
            Err(field) => Err(SetupError::Rules(field)),
            Ok(_) => if config.max_concurrent == 0 {
                Err(SetupError::Run(ConfigError::ZeroLimit))
            } else if config.first_page == 0 {
                Err(SetupError::Run(ConfigError::ZeroPage))
            } else {
                Ok(
                    PipelineView::init(
                        config.first_page as nat,
                        page_count(config.first_page as nat, config.end_page as nat),
                        config.max_concurrent as nat,
                        config.policy,
                    ),
                )
            },
        }
    }
}

impl Default for Config {
    /// The default configuration: the quote listing, pages 1 to 11, eight
    /// permits, and the graceful policy.
    fn default() -> (config: Config)
        ensures
            config.base_url@ == "https://quotes.toscrape.com/"@,
            config.first_page == FIRST_PAGE,
            config.end_page == END_PAGE,
            config.max_concurrent == MAX_TASK,
            config.policy == FailurePolicy::Graceful,
    {
        Config {
            base_url: String::from_str("https://quotes.toscrape.com/"),
            first_page: FIRST_PAGE,
            end_page: END_PAGE,
            max_concurrent: MAX_TASK,
            policy: FailurePolicy::Graceful,
        }
    }
}

impl Config {

    /// Builds the context of a run: reads the base address, compiles the
    /// selector rules and sets up the coordinator.
    pub fn set_up(&self) -> (pipeline: Result<Pipeline, SetupError>)
        ensures
            match set_up_result(*self) {
                Ok(start) => pipeline matches Ok(p) && p.coordinator@ == start
                    && Some(p.site.base) == parsed_url(self.base_url@) && Ok::<SelectorRules, Field>(
                    p.coordinator.rules(),
                ) == compiled_rules(".quote"@, ".text"@, ".author"@, ".tag"@),
                Err(error) => pipeline matches Err(e) && e == error,
            },
    {
        let site = match Site::new(self.base_url.as_str()) {
            Ok(site) => site,
            Err(error) => {
                return Err(SetupError::Site(error));
            },
        };
        let rules = match SelectorRules::standard() {
            Ok(rules) => rules,
            Err(field) => {
                return Err(SetupError::Rules(field));
            },
        };
        match Coordinator::new(
            rules,
            self.first_page,
            self.end_page,
            self.max_concurrent,
            self.policy,
        ) {
            Ok(coordinator) => Ok(Pipeline { site, coordinator }),
            Err(error) => Err(SetupError::Run(error)),
        }
    }
}

} // verus!
