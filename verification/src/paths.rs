//! Where a scan is stored: one file with a stable name per server and guild,
//! and one file per scan in the history.
use vstd::prelude::*;

use crate::clock::{file_stamp_text, show_file_stamp, Timestamp};
use crate::guild::ScanData;
use crate::text::chars_of;

verus! {

/// Directory of the latest scan of every guild.
pub const DATA_DIR: &'static str = "/app/data";

/// Directory of all scans ever made, one file each.
pub const HISTORY_DIR: &'static str = "/app/data/history";

/// `s` without the occurrences of `pat`, searched from left to right and
/// without overlap.
pub open spec fn without(s: Seq<char>, pat: Seq<char>) -> Seq<char>
    decreases s.len(),
{
    if pat.len() == 0 || s.len() < pat.len() {
        s
    } else if s.take(pat.len() as int) == pat {
        without(s.skip(pat.len() as int), pat)
    } else {
        seq![s[0]] + without(s.skip(1), pat)
    }
}

/// Whether a character of a server address gives way to an underscore.
pub open spec fn server_separator(c: char) -> bool {
    c == '/' || c == ':'
}

/// Whether a character of a guild name gives way to an underscore.
pub open spec fn guild_separator(c: char) -> bool {
    c == '/' || c == '\\' || c == ' '
}

/// A server address as it stands in a file name: the scheme is dropped, and
/// slashes and colons are underscores.
pub open spec fn clean_server(server: Seq<char>) -> Seq<char> {
    without(without(server, "https://"@), "http://"@).map_values(
        |c: char|
            if server_separator(c) {
                '_'
            } else {
                c
            },
    )
}

/// A guild name as it stands in a file name: slashes, backslashes and blanks
/// are underscores.
pub open spec fn clean_guild(guild_name: Seq<char>) -> Seq<char> {
    guild_name.map_values(
        |c: char|
            if guild_separator(c) {
                '_'
            } else {
                c
            },
    )
}

/// Whether `pat` stands in `s` at position `at`.
fn stands_at(s: &Vec<char>, at: usize, pat: &Vec<char>) -> (r: bool)
    requires
        at + pat@.len() <= s@.len(),
    ensures
        r == (s@.subrange(at as int, at + pat@.len()) == pat@),
{
    let total: usize = s.len();
    let mut i: usize = 0;
    while i < pat.len()
        invariant
            i <= pat@.len(),
            at + pat@.len() <= total == s@.len(),
            forall|k: int| 0 <= k < i ==> s@[at + k] == pat@[k],
        decreases pat@.len() - i,
    {
        if s[at + i] != pat[i] {
            assert(s@.subrange(at as int, at + pat@.len())[i as int] != pat@[i as int]);
            return false;
        }
        i = i + 1;
    }
    assert(s@.subrange(at as int, at + pat@.len()) =~= pat@);
    true
}

/// Removes the occurrences of `pat`.
fn remove_pattern(s: &Vec<char>, pat: &Vec<char>) -> (r: Vec<char>)
    requires
        pat@.len() > 0,
    ensures
        r@ == without(s@, pat@),
{
    let mut out: Vec<char> = Vec::new();
    let mut i: usize = 0;
    assert(s@.skip(0) =~= s@);
    while i < s.len()
        invariant
            i <= s@.len(),
            pat@.len() > 0,
            without(s@, pat@) == out@ + without(s@.skip(i as int), pat@),
        decreases s@.len() - i,
    {
        let ghost rest = s@.skip(i as int);
        if pat.len() <= s.len() - i && stands_at(s, i, pat) {
            proof {
                assert(rest.take(pat@.len() as int) =~= s@.subrange(i as int, i + pat@.len()));
                assert(rest.skip(pat@.len() as int) =~= s@.skip(i + pat@.len()));
            }
            i = i + pat.len();
        } else {
            proof {
                if pat@.len() <= rest.len() {
                    assert(rest.take(pat@.len() as int) =~= s@.subrange(i as int, i + pat@.len()));
                }
                assert(rest.skip(1) =~= s@.skip(i + 1));
                assert(rest =~= seq![rest[0]] + rest.skip(1));
                assert(without(rest, pat@) == seq![rest[0]] + without(rest.skip(1), pat@));
                assert(out@.push(rest[0]) + without(s@.skip(i + 1), pat@) =~= out@ + (
                seq![rest[0]] + without(rest.skip(1), pat@)));
            }
            out.push(s[i]);
            i = i + 1;
        }
    }
    assert(s@.skip(i as int) =~= Seq::<char>::empty());
    assert(out@ + Seq::<char>::empty() =~= out@);
    out
}

/// The part of a file name that stands for a server.
fn server_part(server: &str) -> (r: String)
    ensures
        r@ == clean_server(server@),
{
    proof {
        reveal_strlit("https://");
        reveal_strlit("http://");
    }
    let no_https: Vec<char> = remove_pattern(&chars_of(server), &chars_of("https://"));
    let host: Vec<char> = remove_pattern(&no_https, &chars_of("http://"));
    let mut out: String = String::new();
    let mut i: usize = 0;
    while i < host.len()
        invariant
            i <= host@.len(),
            host@ == without(without(server@, "https://"@), "http://"@),
            out@ =~= clean_server(server@).take(i as int),
        decreases host@.len() - i,
    {
        let c: char = host[i];
        if c == '/' || c == ':' {
            out.push('_');
        } else {
            out.push(c);
        }
        i = i + 1;
    }
    out
}

/// The part of a file name that stands for a guild.
fn guild_part(guild_name: &str) -> (r: String)
    ensures
        r@ == clean_guild(guild_name@),
{
    let name: Vec<char> = chars_of(guild_name);
    let mut out: String = String::new();
    let mut i: usize = 0;
    while i < name.len()
        invariant
            i <= name@.len(),
            name@ == guild_name@,
            out@ =~= clean_guild(guild_name@).take(i as int),
        decreases name@.len() - i,
    {
        let c: char = name[i];
        if c == '/' || c == '\\' || c == ' ' {
            out.push('_');
        } else {
            out.push(c);
        }
        i = i + 1;
    }
    out
}

/// The stem that the two kinds of file share: `scan_`, the server and the
/// guild.
pub open spec fn scan_stem(server: Seq<char>, guild_name: Seq<char>) -> Seq<char> {
    "/scan_"@ + clean_server(server) + "_"@ + clean_guild(guild_name)
}

/// The path of the latest scan of a guild.
pub fn scan_file_path(server: &str, guild_name: &str) -> (path: String)
    ensures
        path@ == DATA_DIR@ + scan_stem(server@, guild_name@) + ".json"@,
{
    let mut out: String = String::new();
    out.append(DATA_DIR);
    out.append("/scan_");
    out.append(server_part(server).as_str());
    out.append("_");
    out.append(guild_part(guild_name).as_str());
    out.append(".json");
    assert(out@ =~= DATA_DIR@ + scan_stem(server@, guild_name@) + ".json"@);
    out
}

/// The path of the scan of a guild that was made at `ts`.
pub fn history_file_path(server: &str, guild_name: &str, ts: &str) -> (path: String)
    ensures
        path@ == HISTORY_DIR@ + scan_stem(server@, guild_name@) + "_"@ + ts@ + ".json"@,
{
    let mut out: String = String::new();
    out.append(HISTORY_DIR);
    out.append("/scan_");
    out.append(server_part(server).as_str());
    out.append("_");
    out.append(guild_part(guild_name).as_str());
    out.append("_");
    out.append(ts);
    out.append(".json");
    assert(out@ =~= HISTORY_DIR@ + scan_stem(server@, guild_name@) + "_"@ + ts@ + ".json"@);
    out
}

impl ScanData {
    /// The path of the file that holds the latest scan of the guild.
    pub fn latest_path(&self) -> (path: String)
        ensures
            path@ == DATA_DIR@ + scan_stem(self@.server, self@.own_guild.name) + ".json"@,
    {
        scan_file_path(self.server.as_str(), self.own_guild.name.as_str())
    }

    /// The path of the file that keeps this scan, stored at a point in time.
    pub fn archive_path(&self, at: Timestamp) -> (path: String)
        ensures
            path@ == HISTORY_DIR@ + scan_stem(self@.server, self@.own_guild.name) + "_"@
                + file_stamp_text(at) + ".json"@,
    {
        let ts: String = show_file_stamp(at);
        history_file_path(self.server.as_str(), self.own_guild.name.as_str(), ts.as_str())
    }
}

/// Neither the server nor the guild can lead out of the directory: what
/// stands for them in a file name holds no slash, that of the server no
/// colon, and that of the guild no backslash and no blank.
pub proof fn file_names_stay_in_directory(server: Seq<char>, guild_name: Seq<char>)
    ensures
        !clean_server(server).contains('/'),
        !clean_server(server).contains(':'),
        !clean_guild(guild_name).contains('/'),
        !clean_guild(guild_name).contains('\\'),
        !clean_guild(guild_name).contains(' '),
{
}

/// Whether `pat` occurs in `s` at position `at`.
pub open spec fn occurs_at(s: Seq<char>, pat: Seq<char>, at: int) -> bool {
    0 <= at && at + pat.len() <= s.len() && s.subrange(at, at + pat.len()) == pat
}

/// A server address in which no `http` or `https` scheme occurs is kept, but
/// for its separators.
pub proof fn address_without_scheme_is_kept(server: Seq<char>)
    requires
        forall|i: int| !occurs_at(server, "https://"@, i),
        forall|i: int| !occurs_at(server, "http://"@, i),
    ensures
        clean_server(server).len() == server.len(),
        forall|i: int|
            0 <= i < server.len() ==> clean_server(server)[i] == (if server_separator(server[i]) {
                '_'
            } else {
                server[i]
            }),
{
    without_absent(server, "https://"@);
    without_absent(server, "http://"@);
}

/// Removing a pattern that does not occur changes nothing.
proof fn without_absent(s: Seq<char>, pat: Seq<char>)
    requires
        forall|i: int| !occurs_at(s, pat, i),
    ensures
        without(s, pat) == s,
    decreases s.len(),
{
    if pat.len() == 0 || s.len() < pat.len() {
    } else {
        assert(!occurs_at(s, pat, 0));
        assert forall|i: int| !occurs_at(s.skip(1), pat, i) by {
            if occurs_at(s.skip(1), pat, i) {
                assert(s.skip(1).subrange(i, i + pat.len()) =~= s.subrange(
                    i + 1,
                    i + 1 + pat.len(),
                ));
                assert(occurs_at(s, pat, i + 1));
            }
        }
        without_absent(s.skip(1), pat);
        assert(s =~= seq![s[0]] + s.skip(1));
    }
}

/// A guild name is kept in a file name, but for slashes, backslashes and blanks,
/// which are underscores.
pub proof fn guild_name_is_kept(guild_name: Seq<char>, i: int)
    requires
        0 <= i < guild_name.len(),
    ensures
        clean_guild(guild_name).len() == guild_name.len(),
        clean_guild(guild_name)[i] == if guild_name[i] == '/' || guild_name[i] == '\\'
            || guild_name[i] == ' ' {
            '_'
        } else {
            guild_name[i]
        },
{
}

/// The scheme of a secure address is dropped: the address is stored as its host.
pub proof fn secure_scheme_is_dropped(host: Seq<char>)
    requires
        forall|i: int| !occurs_at(host, "https://"@, i),
    ensures
        clean_server("https://"@ + host) == clean_server(host),
{
    let pat = "https://"@;
    reveal_strlit("https://");
    let server = pat + host;
    assert(server.take(pat.len() as int) =~= pat);
    assert(server.skip(pat.len() as int) =~= host);
    assert(without(server, pat) == without(host, pat));
}

} // verus!
