//! The controller UI/API service: which handler a request goes to, the
//! names of the host-side log files, which log files may be downloaded and
//! how serial ports are described. The HTTP server itself belongs to the caller.
use vstd::prelude::*;
use crate::consts::CONTROLLER_LOG_DIR;
use crate::decimal::{decimal, is_digit, lemma_decimal_digits, push_decimal};
use crate::text::{
    chars_eq_str, lemma_one_word, no_sep, nonempty_pieces, push_char, push_chars, push_str, split_chars,
    split_with, starts_with_str, string_from, sub_chars, to_chars, trim, trim_chars, views,
    Sep,
};

verus! {

// ---------------------------------------------------------------------------
// Routing
// ---------------------------------------------------------------------------

/// The HTTP methods the service tells apart.
#[derive(Clone, Copy, Debug, PartialEq, Eq, Structural)]
pub enum Method {
    Get,
    Post,
    Other,
}

/// The handler a request goes to.
#[derive(Clone, Copy, Debug, PartialEq, Eq, Structural)]
pub enum Route {
    Index,
    ListPorts,
    Telemetry,
    Logs,
    StartupStatus,
    Connect,
    Disconnect,
    Command,
    Settings,
    Mode,
    StartupReset,
    DownloadLog,
    NotFound,
}

/// The path of a request URL: everything before the first `?`.
pub open spec fn url_path(url: Seq<char>) -> Seq<char> {
    split_with(url, Sep::Char('?'))[0]
}

pub fn request_path(url: &str) -> (r: String)
    ensures
        r@ == url_path(url@),
{
    let v = to_chars(url);
    let pieces = split_chars(v.as_slice(), &Sep::Char('?'));
    proof {
        crate::text::lemma_split_nonempty(v@, Sep::Char('?'));
    }
    assert(views(pieces@)[0] == pieces@[0]@);
    string_from(pieces[0].as_slice())
}

/// Which handler serves `method` on `path`.
pub open spec fn route_of(method: Method, path: Seq<char>) -> Route {
    if method == Method::Get {
        if path == "/"@ {
            Route::Index
        } else if path == "/api/ports"@ {
            Route::ListPorts
        } else if path == "/api/telemetry"@ {
            Route::Telemetry
        } else if path == "/api/logs"@ {
            Route::Logs
        } else if path == "/api/startup"@ {
            Route::StartupStatus
        } else if "/api/logs/"@.is_prefix_of(path) {
            Route::DownloadLog
        } else {
            Route::NotFound
        }
    } else if method == Method::Post {
        if path == "/api/connect"@ {
            Route::Connect
        } else if path == "/api/disconnect"@ {
            Route::Disconnect
        } else if path == "/api/command"@ {
            Route::Command
        } else if path == "/api/settings"@ {
            Route::Settings
        } else if path == "/api/mode"@ {
            Route::Mode
        } else if path == "/api/startup/reset"@ {
            Route::StartupReset
        } else {
            Route::NotFound
        }
    } else {
        Route::NotFound
    }
}

/// The handler for a request with `method` on `path`.
pub fn route_request(method: Method, path: &str) -> (r: Route)
    ensures
        r == route_of(method, path@),
{
    let p = to_chars(path);
    let p = p.as_slice();
    if method == Method::Get {
        if chars_eq_str(p, "/") {
            Route::Index
        } else if chars_eq_str(p, "/api/ports") {
            Route::ListPorts
        } else if chars_eq_str(p, "/api/telemetry") {
            Route::Telemetry
        } else if chars_eq_str(p, "/api/logs") {
            Route::Logs
        } else if chars_eq_str(p, "/api/startup") {
            Route::StartupStatus
        } else if starts_with_str(p, "/api/logs/") {
            Route::DownloadLog
        } else {
            Route::NotFound
        }
    } else if method == Method::Post {
        if chars_eq_str(p, "/api/connect") {
            Route::Connect
        } else if chars_eq_str(p, "/api/disconnect") {
            Route::Disconnect
        } else if chars_eq_str(p, "/api/command") {
            Route::Command
        } else if chars_eq_str(p, "/api/settings") {
            Route::Settings
        } else if chars_eq_str(p, "/api/mode") {
            Route::Mode
        } else if chars_eq_str(p, "/api/startup/reset") {
            Route::StartupReset
        } else {
            Route::NotFound
        }
    } else {
        Route::NotFound
    }
}

// ---------------------------------------------------------------------------
// Log file names
// ---------------------------------------------------------------------------

/// The directory that holds the host-side CSV logs.
pub fn controller_log_dir() -> (r: String)
    ensures
        r@ == CONTROLLER_LOG_DIR@,
{
    String::from_str(CONTROLLER_LOG_DIR)
}

pub open spec fn log_file_name(prefix: Seq<char>, millis: nat) -> Seq<char> {
    prefix + decimal(millis) + ".csv"@
}

fn named_log_file(prefix: &str, millis: u128) -> (r: String)
    ensures
        r@ == log_file_name(prefix@, millis as nat),
{
    let mut out = String::new();
    push_str(&mut out, prefix);
    let mut digits: Vec<char> = Vec::new();
    push_decimal(&mut digits, millis);
    assert(digits@ =~= decimal(millis as nat));
    push_chars(&mut out, digits.as_slice());
    push_str(&mut out, ".csv");
    out
}

/// The file name of a controller log opened at `millis` ms after the epoch.
pub fn new_log_file_name(millis: u128) -> (r: String)
    ensures
        r@ == log_file_name("controller_"@, millis as nat),
{
    named_log_file("controller_", millis)
}

fn in_log_dir(name: &String) -> (r: String)
    ensures
        r@ == CONTROLLER_LOG_DIR@ + seq!['/'] + name@,
{
    let mut out = controller_log_dir();
    push_char(&mut out, '/');
    push_str(&mut out, name.as_str());
    out
}

/// Milliseconds since the Unix epoch by the system clock (`SystemTime::now`),
/// 0 when the clock reads before the epoch. Nothing is stated of the value:
/// it is the time of the call.
#[verifier::external_body]
fn now_millis() -> (r: u128) {
    std::time::SystemTime::now().duration_since(std::time::UNIX_EPOCH).unwrap_or_default().as_millis()
}

/// The path of a controller log opened at `millis` ms after the epoch.
pub fn log_path_at(millis: u128) -> (r: String)
    ensures
        r@ == CONTROLLER_LOG_DIR@ + seq!['/'] + log_file_name("controller_"@, millis as nat),
{
    let name = new_log_file_name(millis);
    in_log_dir(&name)
}

/// The path for a new controller log, named by the current time.
pub fn new_log_path() -> (r: String)
    ensures
        exists|millis: nat| r@ == CONTROLLER_LOG_DIR@ + seq!['/'] + log_file_name("controller_"@, millis),
{
    let millis = now_millis();
    log_path_at(millis)
}

/// The path of a camera-alignment log opened at `millis` ms after the epoch.
pub fn camera_log_path_at(millis: u128) -> (r: String)
    ensures
        r@ == CONTROLLER_LOG_DIR@ + seq!['/'] + log_file_name("camera_alignment_"@, millis as nat),
{
    let name = named_log_file("camera_alignment_", millis);
    in_log_dir(&name)
}

/// The path for a new camera-alignment log, named by the current time.
pub fn new_camera_log_path() -> (r: String)
    ensures
        exists|millis: nat|
            r@ == CONTROLLER_LOG_DIR@ + seq!['/'] + log_file_name("camera_alignment_"@, millis),
{
    let millis = now_millis();
    camera_log_path_at(millis)
}

// ---------------------------------------------------------------------------
// Downloads
// ---------------------------------------------------------------------------

/// `s` with `p` removed from its front as often as it occurs there (`str::trim_start_matches`).
pub open spec fn strip_all(s: Seq<char>, p: Seq<char>) -> Seq<char>
    decreases s.len(),
{
    if p.len() > 0 && p.is_prefix_of(s) {
        strip_all(s.skip(p.len() as int), p)
    } else {
        s
    }
}

/// The components of a `/`-separated path that name something: empty
/// pieces (repeated or trailing `/`) and `.` are dropped.
pub open spec fn path_components(p: Seq<char>) -> Seq<Seq<char>> {
    nonempty_pieces(split_with(p, Sep::Char('/'))).filter(|c: Seq<char>| c != "."@)
}

/// The final component of a path when it is a name (`Path::file_name`):
/// none for an empty path, the root, or a path ending in `..`.
pub open spec fn file_name_of(p: Seq<char>) -> Option<Seq<char>> {
    let cs = path_components(p);
    if cs.len() == 0 || cs.last() == ".."@ {
        None
    } else {
        Some(cs.last())
    }
}

/// The name of the log that a `/api/logs/<name>` request may download: the
/// final component of what follows the prefix, and only a `.csv` file.
pub open spec fn download_name(path: Seq<char>) -> Option<Seq<char>> {
    match file_name_of(strip_all(path, "/api/logs/"@)) {
        Some(n) => if ".csv"@.is_suffix_of(n) {
            Some(n)
        } else {
            None
        },
        None => None,
    }
}

fn strip_all_exec(s: &[char], p: &str) -> (r: Vec<char>)
    ensures
        r@ == strip_all(s@, p@),
{
    let pv = to_chars(p);
    let mut cur = sub_chars(s, 0, s.len());
    assert(s@.subrange(0, s@.len() as int) == s@);
    if pv.len() == 0 {
        return cur;
    }
    while starts_with_str(cur.as_slice(), p)
        invariant
            pv@ == p@,
            pv@.len() > 0,
            strip_all(cur@, p@) == strip_all(s@, p@),
        decreases cur@.len(),
    {
        let next = sub_chars(cur.as_slice(), pv.len(), cur.len());
        cur = next;
    }
    cur
}

fn is_dot(c: &Vec<char>) -> (r: bool)
    ensures
        r == (c@ == "."@),
{
    chars_eq_str(c.as_slice(), ".")
}

fn file_name_exec(p: &[char]) -> (r: Option<Vec<char>>)
    ensures
        r.deep_view() == file_name_of(p@),
{
    let words = crate::text::split_words(p, &Sep::Char('/'));
    let ghost ws = views(words@);
    let mut comps: Vec<Vec<char>> = Vec::new();
    let mut i: usize = 0;
    reveal(Seq::filter);
    assert(ws.take(0) =~= Seq::<Seq<char>>::empty());
    while i < words.len()
        invariant
            i <= words@.len(),
            ws == views(words@),
            views(comps@) == ws.take(i as int).filter(|c: Seq<char>| c != "."@),
        decreases words@.len() - i,
    {
        reveal(Seq::filter);
        assert(ws.take(i as int + 1).drop_last() == ws.take(i as int));
        assert(ws.take(i as int + 1).last() == words@[i as int]@);
        if !is_dot(&words[i]) {
            let c = sub_chars(words[i].as_slice(), 0, words[i].len());
            assert(words@[i as int]@.subrange(0, words@[i as int]@.len() as int) == words@[i as int]@);
            let ghost before = views(comps@);
            comps.push(c);
            assert(views(comps@) =~= before.push(words@[i as int]@));
        }
        i = i + 1;
    }
    assert(ws.take(words@.len() as int) == ws);
    assert(ws == nonempty_pieces(split_with(p@, Sep::Char('/'))));
    if comps.len() == 0 {
        return None;
    }
    let last = &comps[comps.len() - 1];
    assert(views(comps@).last() == last@);
    if chars_eq_str(last.as_slice(), "..") {
        None
    } else {
        Some(sub_chars(last.as_slice(), 0, last.len()))
    }
}

fn ends_with_str(s: &[char], suffix: &str) -> (r: bool)
    ensures
        r == suffix@.is_suffix_of(s@),
{
    let sv = to_chars(suffix);
    if sv.len() > s.len() {
        return false;
    }
    let start = s.len() - sv.len();
    let tail = sub_chars(s, start, s.len());
    let r = crate::text::chars_eq(tail.as_slice(), sv.as_slice());
    proof {
        if r {
            assert forall|i: int| 0 <= i < sv@.len() implies sv@[i] == s@[s@.len() - sv@.len() + i] by {
                assert(tail@[i] == s@[start + i]);
            }
        } else {
            if suffix@.is_suffix_of(s@) {
                assert(tail@ =~= sv@);
            }
        }
    }
    r
}

/// The log file that a download request for `path` may read, if any.
pub fn download_log_name(path: &str) -> (r: Option<String>)
    ensures
        r.deep_view() == download_name(path@),
{
    let v = to_chars(path);
    let rest = strip_all_exec(v.as_slice(), "/api/logs/");
    match file_name_exec(rest.as_slice()) {
        Some(n) => {
            if ends_with_str(n.as_slice(), ".csv") {
                Some(string_from(n.as_slice()))
            } else {
                None
            }
        },
        None => None,
    }
}

/// The `Content-Disposition` value that offers `filename` as a download.
pub fn content_disposition_value(filename: &str) -> (r: String)
    ensures
        r@ == "attachment; filename=\""@ + filename@ + "\""@,
{
    let mut out = String::from_str("attachment; filename=\"");
    push_str(&mut out, filename);
    push_str(&mut out, "\"");
    out
}

// ---------------------------------------------------------------------------
// Serial ports
// ---------------------------------------------------------------------------

/// What kind of serial port the system reports.
#[derive(Clone, Debug)]
pub enum PortKind {
    Usb { manufacturer: Option<String>, product: Option<String> },
    Bluetooth,
    Pci,
    Unknown,
}

pub open spec fn port_description(kind: PortKind) -> Seq<char> {
    match kind {
        PortKind::Usb { manufacturer, product } => trim(
            match manufacturer {
                Some(m) => m@,
                None => "USB serial"@,
            } + seq![' '] + match product {
                Some(p) => p@,
                None => Seq::<char>::empty(),
            },
        ),
        PortKind::Bluetooth => "Bluetooth"@,
        PortKind::Pci => "PCI"@,
        PortKind::Unknown => "Unknown"@,
    }
}

/// The description of a serial port shown in the UI's port list.
pub fn describe_port(kind: &PortKind) -> (r: String)
    ensures
        r@ == port_description(*kind),
{
    match kind {
        PortKind::Usb { manufacturer, product } => {
            let mut out = String::new();
            match manufacturer {
                Some(m) => push_str(&mut out, m.as_str()),
                None => push_str(&mut out, "USB serial"),
            }
            push_char(&mut out, ' ');
            match product {
                Some(p) => push_str(&mut out, p.as_str()),
                None => {},
            }
            let v = to_chars(out.as_str());
            assert(v@ =~= match manufacturer {
                Some(m) => m@,
                None => "USB serial"@,
            } + seq![' '] + match product {
                Some(p) => p@,
                None => Seq::<char>::empty(),
            });
            let t = trim_chars(v.as_slice());
            string_from(t.as_slice())
        },
        PortKind::Bluetooth => String::from_str("Bluetooth"),
        PortKind::Pci => String::from_str("PCI"),
        PortKind::Unknown => String::from_str("Unknown"),
    }
}

// ---------------------------------------------------------------------------
// Listing the logs
// ---------------------------------------------------------------------------

/// A file found in the log directory.
#[derive(Clone, Debug)]
pub struct LogFileEntry {
    pub name: String,
    pub size: u64,
}

/// Whether a file name has the extension `csv` (`Path::extension`): it ends
/// in `.csv` and something precedes that dot.
pub open spec fn has_csv_extension(name: Seq<char>) -> bool {
    name.len() > 4 && ".csv"@.is_suffix_of(name)
}

/// Strict order of text, character by character (`str`'s `Ord`).
pub open spec fn text_lt(a: Seq<char>, b: Seq<char>) -> bool
    decreases a.len(),
{
    if b.len() == 0 {
        false
    } else if a.len() == 0 {
        true
    } else if a[0] != b[0] {
        a[0] < b[0]
    } else {
        text_lt(a.drop_first(), b.drop_first())
    }
}

pub proof fn lemma_text_lt_irreflexive(a: Seq<char>)
    ensures
        !text_lt(a, a),
    decreases a.len(),
{
    if a.len() > 0 {
        lemma_text_lt_irreflexive(a.drop_first());
    }
}

pub proof fn lemma_text_lt_total(a: Seq<char>, b: Seq<char>)
    ensures
        text_lt(a, b) || text_lt(b, a) || a == b,
    decreases a.len(),
{
    if a.len() > 0 && b.len() > 0 && a[0] == b[0] {
        lemma_text_lt_total(a.drop_first(), b.drop_first());
        if a.drop_first() == b.drop_first() {
            assert forall|i: int| 0 <= i < a.len() implies a[i] == b[i] by {
                if i > 0 {
                    assert(a[i] == a.drop_first()[i - 1]);
                    assert(b[i] == b.drop_first()[i - 1]);
                }
            }
            assert(a =~= b);
        }
    } else if a.len() == 0 && b.len() == 0 {
        assert(a =~= b);
    }
}

pub proof fn lemma_text_lt_transitive(a: Seq<char>, b: Seq<char>, c: Seq<char>)
    requires
        text_lt(a, b),
        text_lt(b, c),
    ensures
        text_lt(a, c),
    decreases a.len(),
{
    if a.len() > 0 && a[0] == b[0] && b[0] == c[0] {
        lemma_text_lt_transitive(a.drop_first(), b.drop_first(), c.drop_first());
    }
}

pub proof fn lemma_text_lt_asymmetric(a: Seq<char>, b: Seq<char>)
    requires
        text_lt(a, b),
    ensures
        !text_lt(b, a),
    decreases a.len(),
{
    if a.len() > 0 && b.len() > 0 && a[0] == b[0] {
        lemma_text_lt_asymmetric(a.drop_first(), b.drop_first());
    }
}

fn text_less(a: &[char], b: &[char]) -> (r: bool)
    ensures
        r == text_lt(a@, b@),
{
    let mut i: usize = 0;
    assert(a@.skip(0) =~= a@ && b@.skip(0) =~= b@);
    while i < a.len() && i < b.len() && a[i] == b[i]
        invariant
            i <= a@.len(),
            i <= b@.len(),
            text_lt(a@, b@) == text_lt(a@.skip(i as int), b@.skip(i as int)),
        decreases a@.len() - i,
    {
        assert(a@.skip(i as int).drop_first() =~= a@.skip(i as int + 1));
        assert(b@.skip(i as int).drop_first() =~= b@.skip(i as int + 1));
        i = i + 1;
    }
    if i == b.len() {
        false
    } else if i == a.len() {
        true
    } else {
        a[i] < b[i]
    }
}

/// Newest first: no name is smaller than one after it.
pub open spec fn sorted_descending(v: Seq<LogFileEntry>) -> bool {
    forall|i: int, j: int| 0 <= i < j < v.len() ==> !text_lt(#[trigger] v[i].name@, #[trigger] v[j].name@)
}

pub open spec fn csv_entries(v: Seq<LogFileEntry>) -> Seq<LogFileEntry> {
    v.filter(|e: LogFileEntry| has_csv_extension(e.name@))
}

proof fn lemma_insert_multiset(s: Seq<LogFileEntry>, p: int, x: LogFileEntry)
    requires
        0 <= p <= s.len(),
    ensures
        s.insert(p, x).to_multiset() =~= s.to_multiset().insert(x),
{
    broadcast use vstd::seq_lib::group_to_multiset_ensures;
    broadcast use vstd::seq_lib::lemma_multiset_commutative;
    let a = s.subrange(0, p);
    let b = s.subrange(p, s.len() as int);
    assert(s =~= a + b);
    assert(s.insert(p, x) =~= a.push(x) + b);
    assert((a + b).to_multiset() =~= a.to_multiset().add(b.to_multiset()));
    assert((a.push(x) + b).to_multiset() =~= a.push(x).to_multiset().add(b.to_multiset()));
}

/// The `.csv` files among `entries`, newest (greatest name) first.
pub fn list_csv_logs(entries: Vec<LogFileEntry>) -> (r: Vec<LogFileEntry>)
    ensures
        sorted_descending(r@),
        r@.to_multiset() == csv_entries(entries@).to_multiset(),
{
    let mut out: Vec<LogFileEntry> = Vec::new();
    let mut entries = entries;
    let ghost all = entries@;
    let mut taken: usize = 0;
    let n = entries.len();
    reveal(Seq::filter);
    assert(all.take(0) =~= Seq::<LogFileEntry>::empty());
    assert(all.skip(0) =~= all);
    while entries.len() > 0
        invariant
            taken + entries@.len() == n,
            n == all.len(),
            entries@ =~= all.skip(taken as int),
            sorted_descending(out@),
            out@.to_multiset() == csv_entries(all.take(taken as int)).to_multiset(),
        decreases entries@.len(),
    {
        let e = entries.remove(0);
        assert(e == all[taken as int]);
        assert(all.take(taken as int + 1).drop_last() =~= all.take(taken as int));
        assert(all.take(taken as int + 1).last() == e);
        reveal(Seq::filter);
        let nv = to_chars(e.name.as_str());
        if nv.len() > 4 && ends_with_csv(nv.as_slice()) {
            let mut p: usize = 0;
            while p < out.len() && !name_less(&out[p], nv.as_slice())
                invariant
                    p <= out@.len(),
                    nv@ == e.name@,
                    sorted_descending(out@),
                    forall|i: int| 0 <= i < p ==> !text_lt(#[trigger] out@[i].name@, e.name@),
                decreases out@.len() - p,
            {
                p = p + 1;
            }
            proof {
                assert forall|j: int| p <= j < out@.len() implies !text_lt(
                    e.name@,
                    #[trigger] out@[j].name@,
                ) by {
                    assert(text_lt(out@[p as int].name@, e.name@));
                    if j > p {
                        lemma_text_lt_total(out@[p as int].name@, out@[j].name@);
                        if text_lt(out@[j].name@, out@[p as int].name@) {
                            lemma_text_lt_transitive(out@[j].name@, out@[p as int].name@, e.name@);
                            lemma_text_lt_asymmetric(out@[j].name@, e.name@);
                        } else {
                            assert(out@[j].name@ == out@[p as int].name@);
                            lemma_text_lt_asymmetric(out@[p as int].name@, e.name@);
                        }
                    } else {
                        lemma_text_lt_asymmetric(out@[p as int].name@, e.name@);
                    }
                }
            }
            let ghost before = out@;
            out.insert(p, e);
            proof {
                lemma_insert_multiset(before, p as int, e);
                assert(out@ == before.insert(p as int, e));
                assert forall|i: int, j: int| 0 <= i < j < out@.len() implies !text_lt(
                    #[trigger] out@[i].name@,
                    #[trigger] out@[j].name@,
                ) by {
                    if i < p && j < p {
                        assert(out@[i] == before[i] && out@[j] == before[j]);
                    } else if i < p && j == p {
                    } else if i < p {
                        assert(out@[i] == before[i] && out@[j] == before[j - 1]);
                    } else if i == p {
                        assert(out@[j] == before[j - 1]);
                    } else {
                        assert(out@[i] == before[i - 1] && out@[j] == before[j - 1]);
                    }
                }
                assert(csv_entries(all.take(taken as int + 1)) == csv_entries(
                    all.take(taken as int),
                ).push(e));
                broadcast use vstd::seq_lib::group_to_multiset_ensures;
            }
        } else {
            proof {
                assert(!has_csv_extension(e.name@));
                assert(csv_entries(all.take(taken as int + 1)) == csv_entries(
                    all.take(taken as int),
                ));
            }
        }
        taken = taken + 1;
    }
    assert(all.take(n as int) =~= all);
    out
}

fn name_less(a: &LogFileEntry, b: &[char]) -> (r: bool)
    ensures
        r == text_lt(a.name@, b@),
{
    let av = to_chars(a.name.as_str());
    text_less(av.as_slice(), b)
}

fn ends_with_csv(v: &[char]) -> (r: bool)
    ensures
        r == ".csv"@.is_suffix_of(v@),
{
    ends_with_str(v, ".csv")
}

// ---------------------------------------------------------------------------
// Laws of the log files
// ---------------------------------------------------------------------------

/// The name of a log file holds no `/`, so it is a single path component.
proof fn lemma_log_name_plain(prefix: Seq<char>, millis: nat)
    requires
        no_sep(prefix, Sep::Char('/')),
    ensures
        no_sep(log_file_name(prefix, millis), Sep::Char('/')),
        log_file_name(prefix, millis).len() > 4,
{
    reveal_strlit(".csv");
    lemma_decimal_digits(millis);
    let d = decimal(millis);
    let n = log_file_name(prefix, millis);
    assert forall|j: int| 0 <= j < n.len() implies #[trigger] n[j] != '/' by {
        if j < prefix.len() {
            assert(n[j] == prefix[j]);
        } else if j < prefix.len() + d.len() {
            assert(n[j] == d[j - prefix.len()]);
            assert(is_digit(d[j - prefix.len()]));
        } else {
            assert(n[j] == ".csv"@[j - prefix.len() - d.len()]);
        }
    }
}

/// A log file that the bridge names (with a prefix free of `/`) can be
/// downloaded under that same name.
pub proof fn law_new_logs_downloadable(prefix: Seq<char>, millis: nat)
    requires
        no_sep(prefix, Sep::Char('/')),
    ensures
        download_name("/api/logs/"@ + log_file_name(prefix, millis)) == Some(
            log_file_name(prefix, millis),
        ),
{
    reveal_strlit("/api/logs/");
    reveal_strlit(".csv");
    reveal_strlit(".");
    reveal_strlit("..");
    lemma_log_name_plain(prefix, millis);
    let n = log_file_name(prefix, millis);
    let p = "/api/logs/"@;
    let path = p + n;
    assert(p.is_prefix_of(path));
    assert(path.skip(p.len() as int) == n);
    assert(n[0] != '/');
    if p.is_prefix_of(n) {
        assert(n.subrange(0, p.len() as int)[0] == n[0]);
        assert(p[0] == '/');
    }
    assert(strip_all(n, p) == n);
    assert(strip_all(path, p) == n);
    lemma_one_word(n, Sep::Char('/'));
    assert(nonempty_pieces(split_with(n, Sep::Char('/'))) == seq![n]);
    reveal(Seq::filter);
    assert(n != "."@);
    assert(seq![n].drop_last() == Seq::<Seq<char>>::empty());
    assert(seq![n].filter(|c: Seq<char>| c != "."@) == seq![n]);
    assert(path_components(n) == seq![n]);
    assert(n != ".."@);
    assert(".csv"@.is_suffix_of(n)) by {
        assert forall|i: int| 0 <= i < 4 implies ".csv"@[i] == n[n.len() - 4 + i] by {}
    }
}

} // verus!
