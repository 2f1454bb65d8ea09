use vstd::prelude::*;

use crate::error::Error;

verus! {

/// One hit of a web search: its title, address and snippet.
#[derive(Debug, Clone)]
pub struct SearchResult {
    pub title: String,
    pub url: String,
    pub snippet: String,
}

/// A web search collaborator. Implementations perform the search however
/// they like; the engine never looks inside.
pub trait WebSearcher {
    /// Searches with the default options.
    fn search(&self, query: &str) -> (r: Result<Vec<SearchResult>, Error>);

    /// Searches with the given options.
    fn search_with_options(&self, query: &str, options: SearchOptions) -> (r: Result<
        Vec<SearchResult>,
        Error,
    >);
}

/// How a search is narrowed: none of the fields needs to be given.
#[derive(Debug, Clone)]
pub struct SearchOptions {
    pub max_results: Option<usize>,
    pub language: Option<String>,
    pub region: Option<String>,
}

impl Default for SearchOptions {
    /// A search narrowed by nothing.
    fn default() -> (r: Self)
        ensures
            r.max_results is None,
            r.language is None,
            r.region is None,
    {
        SearchOptions { max_results: None, language: None, region: None }
    }
}

/// The character that stands for a single decimal digit.
pub open spec fn digit_char(d: nat) -> char {
    if d == 0 {
        '0'
    } else if d == 1 {
        '1'
    } else if d == 2 {
        '2'
    } else if d == 3 {
        '3'
    } else if d == 4 {
        '4'
    } else if d == 5 {
        '5'
    } else if d == 6 {
        '6'
    } else if d == 7 {
        '7'
    } else if d == 8 {
        '8'
    } else {
        '9'
    }
}

/// The decimal notation of a number, most significant digit first.
pub open spec fn decimal_of(n: nat) -> Seq<char>
    decreases n,
{
    if n < 10 {
        seq![digit_char(n)]
    } else {
        decimal_of(n / 10).push(digit_char(n % 10))
    }
}

/// The one-character string of a single decimal digit.
fn digit_str(d: usize) -> (r: &'static str)
    requires
        d < 10,
    ensures
        r@ == seq![digit_char(d as nat)],
{
    proof {
        reveal_strlit("0");
        reveal_strlit("1");
        reveal_strlit("2");
        reveal_strlit("3");
        reveal_strlit("4");
        reveal_strlit("5");
        reveal_strlit("6");
        reveal_strlit("7");
        reveal_strlit("8");
        reveal_strlit("9");
    }
    let r = if d == 0 {
        "0"
    } else if d == 1 {
        "1"
    } else if d == 2 {
        "2"
    } else if d == 3 {
        "3"
    } else if d == 4 {
        "4"
    } else if d == 5 {
        "5"
    } else if d == 6 {
        "6"
    } else if d == 7 {
        "7"
    } else if d == 8 {
        "8"
    } else {
        "9"
    };
    proof {
        assert(r@ =~= seq![digit_char(d as nat)]);
    }
    r
}

/// The number written in decimal.
pub fn format_usize(n: usize) -> (r: String)
    ensures
        r@ == decimal_of(n as nat),
    decreases n,
{
    if n < 10 {
        digit_str(n).to_owned()
    } else {
        let mut s = format_usize(n / 10);
        s.append(digit_str(n % 10));
        s
    }
}

/// The query address of a web search: the fixed prefix with the key, the
/// engine, and the query, then the optional narrowing parameters in a fixed
/// order.
pub open spec fn search_url_spec(
    api_key: Seq<char>,
    engine_id: Seq<char>,
    query: Seq<char>,
    options: SearchOptions,
) -> Seq<char> {
    let base = "https://www.googleapis.com/customsearch/v1?key="@ + api_key + "&cx="@
        + engine_id + "&q="@ + query;
    let with_lang = match options.language {
        Some(lang) => base + "&lr=lang_"@ + lang@,
        None => base,
    };
    let with_region = match options.region {
        Some(region) => with_lang + "&cr=country"@ + region@,
        None => with_lang,
    };
    match options.max_results {
        Some(m) => with_region + "&num="@ + decimal_of(m as nat),
        None => with_region,
    }
}

/// Builds the query address of a web search from the key, the engine, the
/// query and the options.
pub fn build_search_url(api_key: &str, engine_id: &str, query: &str, options: &SearchOptions) -> (r:
    String)
    ensures
        r@ == search_url_spec(api_key@, engine_id@, query@, *options),
{
    let mut url: String = "https://www.googleapis.com/customsearch/v1?key=".to_owned();
    url.append(api_key);
    url.append("&cx=");
    url.append(engine_id);
    url.append("&q=");
    url.append(query);
    match &options.language {
        Some(lang) => {
            url.append("&lr=lang_");
            url.append(lang.as_str());
        }
        None => (),
    }
    match &options.region {
        Some(region) => {
            url.append("&cr=country");
            url.append(region.as_str());
        }
        None => (),
    }
    match &options.max_results {
        Some(m) => {
            url.append("&num=");
            let num = format_usize(*m);
            url.append(num.as_str());
        }
        None => (),
    }
    url
}

} // verus!
