//! The configuration file: a list of services, each a name and a command
//! line.
//!
//! A service starts with a line that holds its name in square brackets.
//! Each line after it is one string of its command line, the executable
//! first. Empty lines are skipped.
//!
//! ```text
//! [web]
//! /usr/bin/httpd
//! -f
//! /etc/httpd.conf
//!
//! [sleeper]
//! /bin/sleep
//! 3600
//! ```

use vstd::prelude::*;
use vstd::string::*;

use crate::service::configs_view;
use crate::service::strings_view;
use crate::service::ConfigView;
use crate::service::ServiceConfig;

verus! {

/// The lines of the text from `start` on, when no line ends between
/// `start` and `i`: the text is cut at every newline, which belongs to no
/// line, and what follows the last newline is a line too.
pub open spec fn lines_from(text: Seq<char>, start: int, i: int) -> Seq<Seq<char>>
    decreases text.len() - i,
{
    if i < start || i >= text.len() {
        seq![text.subrange(start, text.len() as int)]
    } else if text[i] == '\n' {
        seq![text.subrange(start, i)] + lines_from(text, i + 1, i + 1)
    } else {
        lines_from(text, start, i + 1)
    }
}

/// The lines of the text.
pub open spec fn lines(text: Seq<char>) -> Seq<Seq<char>> {
    lines_from(text, 0, 0)
}

/// Cuts the text into its lines.
pub fn split_lines(text: &str) -> (out: Vec<String>)
    ensures
        strings_view(out@) == lines(text@),
{
    let ghost whole = text@;
    let total = text.unicode_len();
    let mut out: Vec<String> = Vec::new();
    let mut start: usize = 0;
    let mut i: usize = 0;
    for c in it: text.chars()
        invariant
            whole == text@,
            it.seq() == whole,
            i == it.index(),
            start <= i <= whole.len(),
            whole.len() == total,
            lines(whole) == strings_view(out@) + lines_from(whole, start as int, i as int),
    {
        let ghost before = strings_view(out@);
        assert(i < total);
        if c == '\n' {
            let line = text.substring_char(start, i);
            out.push(String::from_str(line));
            start = i + 1;
            assert(strings_view(out@) =~= before.push(line@));
            assert(before + (seq![line@] + lines_from(whole, i + 1, i + 1)) =~= before.push(line@)
                + lines_from(whole, i + 1, i + 1));
        }
        i = i + 1;
    }
    let ghost before = strings_view(out@);
    let rest = text.substring_char(start, i);
    out.push(String::from_str(rest));
    assert(strings_view(out@) =~= before + seq![rest@]);
    out
}

/// Why a configuration text was not read.
#[derive(Debug, Clone, Copy, PartialEq, Eq, Structural)]
pub enum ConfigError {
    /// The line of this index, counted from zero, is a string of a command
    /// line and no service precedes it.
    OrphanLine(usize),
}

/// Whether the line starts a service: it holds a name in square brackets.
pub open spec fn is_header(line: Seq<char>) -> bool {
    line.len() >= 2 && line[0] == '[' && line.last() == ']'
}

/// The name that a line that starts a service holds.
pub open spec fn header_name(line: Seq<char>) -> Seq<char> {
    line.subrange(1, line.len() - 1)
}

/// The services read so far, after the line of index `index` has been
/// taken in: an empty line changes nothing, a line that starts a service
/// adds one, without a command line yet, and any other line is one more
/// string of the command line of the service added last.
pub open spec fn with_line(cfg: Seq<ConfigView>, line: Seq<char>, index: int) -> Result<
    Seq<ConfigView>,
    ConfigError,
> {
    if line.len() == 0 {
        Ok(cfg)
    } else if is_header(line) {
        Ok(cfg.push(ConfigView { name: header_name(line), argv: Seq::empty() }))
    } else if cfg.len() == 0 {
        Err(ConfigError::OrphanLine(index as usize))
    } else {
        Ok(
            cfg.update(
                cfg.len() - 1,
                ConfigView { name: cfg.last().name, argv: cfg.last().argv.push(line) },
            ),
        )
    }
}

/// The services that the first `n` lines describe, or the first error in
/// them.
pub open spec fn services_of(lines: Seq<Seq<char>>, n: int) -> Result<Seq<ConfigView>, ConfigError>
    decreases n,
{
    if n <= 0 {
        Ok(Seq::empty())
    } else {
        match services_of(lines, n - 1) {
            Ok(cfg) => with_line(cfg, lines[n - 1], n - 1),
            Err(e) => Err(e),
        }
    }
}

/// The services that a configuration text describes.
pub open spec fn config_of(text: Seq<char>) -> Result<Seq<ConfigView>, ConfigError> {
    services_of(lines(text), lines(text).len() as int)
}

/// Once a line is at fault, the lines after it do not mend it.
pub proof fn lemma_error_stays(rows: Seq<Seq<char>>, n: int, m: int)
    requires
        n <= m,
        services_of(rows, n) is Err,
    ensures
        services_of(rows, m) == services_of(rows, n),
    decreases m - n,
{
    if n < m {
        lemma_error_stays(rows, n, m - 1);
    }
}

/// Reads a configuration text. Whether the services can be loaded (the
/// names are there and differ, each has a command) is for the reload to
/// say.
pub fn parse_config(text: &str) -> (res: Result<Vec<ServiceConfig>, ConfigError>)
    ensures
        match config_of(text@) {
            Ok(cfg) => res is Ok && configs_view(res->Ok_0@) == cfg,
            Err(e) => res == Err::<Vec<ServiceConfig>, ConfigError>(e),
        },
{
    let all = split_lines(text);
    let ghost rows = strings_view(all@);
    let mut cfg: Vec<ServiceConfig> = Vec::new();
    let mut n: usize = 0;
    assert(configs_view(cfg@) =~= Seq::<ConfigView>::empty());
    while n < all.len()
        invariant
            n <= all.len(),
            rows == strings_view(all@),
            rows == lines(text@),
            services_of(rows, n as int) == Ok::<Seq<ConfigView>, ConfigError>(configs_view(cfg@)),
        decreases all.len() - n,
    {
        let line = all[n].as_str();
        assert(rows[n as int] == line@);
        let ghost so_far = configs_view(cfg@);
        let len = line.unicode_len();
        if len == 0 {
        } else if len >= 2 && line.get_char(0) == '[' && line.get_char(len - 1) == ']' {
            let name = String::from_str(line.substring_char(1, len - 1));
            let added = ServiceConfig::new(name, Vec::new());
            assert(added@.argv =~= Seq::<Seq<char>>::empty());
            assert(added@ == (ConfigView { name: header_name(line@), argv: Seq::empty() }));
            cfg.push(added);
            assert(configs_view(cfg@) =~= so_far.push(
                ConfigView { name: header_name(line@), argv: Seq::empty() },
            ));
        } else if cfg.len() == 0 {
            proof {
                assert(services_of(rows, n + 1) == Err::<Seq<ConfigView>, ConfigError>(
                    ConfigError::OrphanLine(n),
                ));
                lemma_error_stays(rows, n + 1, rows.len() as int);
            }
            return Err(ConfigError::OrphanLine(n));
        } else {
            let mut last = cfg.pop().unwrap();
            let ghost before = last@;
            last.argv.push(String::from_str(line));
            assert(last@.argv =~= before.argv.push(line@));
            cfg.push(last);
            assert(configs_view(cfg@) =~= so_far.update(
                so_far.len() - 1,
                ConfigView { name: so_far.last().name, argv: so_far.last().argv.push(line@) },
            ));
        }
        n = n + 1;
    }
    Ok(cfg)
}

} // verus!
