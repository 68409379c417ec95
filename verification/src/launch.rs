//! How a server is started.
use vstd::prelude::*;

use crate::text;
use crate::text::decimal;

verus! {

broadcast use vstd::string::group_string_axioms;

/// Where a server listens, and whether it shows itself.
#[derive(Debug, PartialEq, Eq)]
pub struct LaunchOptions {
    /// The address to listen on.
    pub host: String,
    /// Zero takes any port that is free.
    pub port: u16,
    pub open_browser: bool,
}

impl LaunchOptions {
    /// The local mode: this machine only, any free port, and a browser.
    pub fn gui() -> (options: LaunchOptions)
        ensures
            options.host@ == "127.0.0.1"@,
            options.port == 0,
            options.open_browser,
    {
        LaunchOptions { host: "127.0.0.1".to_owned(), port: 0, open_browser: true }
    }

    /// The deployed mode: wherever it is told to listen.
    pub fn server(host: String, port: u16, open_browser: bool) -> (options: LaunchOptions)
        ensures
            options.host@ == host@,
            options.port == port,
            options.open_browser == open_browser,
    {
        LaunchOptions { host, port, open_browser }
    }
}

/// What is said of what was found.
pub fn discovered(entries: usize, root: &str) -> (line: String)
    ensures
        line@ == "Discovered "@ + decimal(entries as nat) + " radargram(s) under "@ + root@,
{
    let mut line = "Discovered ".to_owned();
    line.append(text::decimal_usize(entries).as_str());
    line.append(" radargram(s) under ");
    line.append(root);
    line
}

/// The address a browser is pointed at.
pub fn url(bound: &str) -> (url: String)
    ensures
        url@ == "http://"@ + bound@,
{
    let mut url = "http://".to_owned();
    url.append(bound);
    url
}

} // verus!
