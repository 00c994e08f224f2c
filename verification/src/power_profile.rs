//! Power-profile selection through `powerprofilesctl`.
//!
//! A profile name is parsed into a small allowlist before it can become a
//! command argument. Running the fixed executable is the application's job:
//! this module decides which command runs next and what the caller is told,
//! as a state machine that is resumed with each command's outcome.

use vstd::prelude::*;
use vstd::utf8::valid_utf8;
use vstd::utf8::decode_utf8;
use crate::text::is_white_space;
use crate::text::trim;
use crate::text::trim_start;
use crate::text::newline_pieces;
use crate::text::chars_of;
use crate::text::range_equals;
use crate::text::trim_bounds;
use crate::text::trim_start_bound;
use crate::text::is_whitespace_char;
use crate::text::decode_utf8_text;

verus! {

/// Largest accepted size, in bytes, of either output stream.
pub const MAX_OUTPUT_BYTES: usize = 65536;

/// Profiles understood by power-profiles-daemon.
#[derive(Clone, Copy, Debug, PartialEq, Eq, Structural)]
pub enum PowerProfile {
    /// Prefer lower energy use.
    PowerSaver,
    /// The daemon's normal default profile.
    Balanced,
    /// Prefer performance.
    Performance,
}

/// The daemon's name for a profile.
pub open spec fn profile_name(profile: PowerProfile) -> Seq<char> {
    match profile {
        PowerProfile::PowerSaver => "power-saver"@,
        PowerProfile::Balanced => "balanced"@,
        PowerProfile::Performance => "performance"@,
    }
}

/// The profile whose name is exactly `s`, if any.
pub open spec fn spec_parse_profile(s: Seq<char>) -> Option<PowerProfile> {
    if s == "power-saver"@ {
        Some(PowerProfile::PowerSaver)
    } else if s == "balanced"@ {
        Some(PowerProfile::Balanced)
    } else if s == "performance"@ {
        Some(PowerProfile::Performance)
    } else {
        None
    }
}

/// The daemon's listing order of profiles.
pub open spec fn spec_profile_order(profile: PowerProfile) -> u8 {
    match profile {
        PowerProfile::PowerSaver => 0,
        PowerProfile::Balanced => 1,
        PowerProfile::Performance => 2,
    }
}

fn parse_profile_range(cs: &[char], lo: usize, hi: usize) -> (r: Option<PowerProfile>)
    requires
        lo <= hi <= cs@.len(),
    ensures
        r == spec_parse_profile(cs@.subrange(lo as int, hi as int)),
{
    if range_equals(cs, lo, hi, "power-saver") {
        Some(PowerProfile::PowerSaver)
    } else if range_equals(cs, lo, hi, "balanced") {
        Some(PowerProfile::Balanced)
    } else if range_equals(cs, lo, hi, "performance") {
        Some(PowerProfile::Performance)
    } else {
        None
    }
}

impl PowerProfile {
    /// Parses exactly one supported profile name; anything else is `None`.
    pub fn parse(value: &str) -> (r: Option<PowerProfile>)
        ensures
            r == spec_parse_profile(value@),
    {
        let cs = chars_of(value);
        assert(cs@.subrange(0, cs@.len() as int) =~= cs@);
        parse_profile_range(cs.as_slice(), 0, cs.len())
    }

    /// The daemon's name for this profile.
    pub fn as_str(self) -> (r: &'static str)
        ensures
            r@ == profile_name(self),
    {
        match self {
            PowerProfile::PowerSaver => "power-saver",
            PowerProfile::Balanced => "balanced",
            PowerProfile::Performance => "performance",
        }
    }
}

/// Every profile's own name parses back to it, and a name parses to a
/// profile only when it is exactly that profile's name.
pub proof fn lemma_profile_names_round_trip(profile: PowerProfile, s: Seq<char>)
    ensures
        spec_parse_profile(profile_name(profile)) == Some(profile),
        spec_parse_profile(s) matches Some(p) ==> s == profile_name(p),
{
    reveal_strlit("power-saver");
    reveal_strlit("balanced");
    reveal_strlit("performance");
    assert("power-saver"@ != "balanced"@) by {
        assert("power-saver"@.len() != "balanced"@.len());
    }
    assert("power-saver"@ != "performance"@) by {
        assert("power-saver"@[1] != "performance"@[1]);
    }
    assert("balanced"@ != "performance"@) by {
        assert("balanced"@.len() != "performance"@.len());
    }
}

/// The daemon's listing order of a profile.
pub fn profile_order(profile: PowerProfile) -> (r: u8)
    ensures
        r == spec_profile_order(profile),
{
    match profile {
        PowerProfile::PowerSaver => 0,
        PowerProfile::Balanced => 1,
        PowerProfile::Performance => 2,
    }
}

// ---------------------------------------------------------------------------
// Output parsing
// ---------------------------------------------------------------------------

/// `s` without any leading `'*'` characters.
pub open spec fn strip_stars(s: Seq<char>) -> Seq<char>
    decreases s.len(),
{
    if s.len() > 0 && s[0] == '*' {
        strip_stars(s.drop_first())
    } else {
        s
    }
}

/// `s` without one trailing `':'`, if it has one.
pub open spec fn strip_colon(s: Seq<char>) -> Seq<char> {
    if s.len() > 0 && s.last() == ':' {
        s.drop_last()
    } else {
        s
    }
}

/// The leading run of non-white-space characters of `s`.
pub open spec fn leading_word(s: Seq<char>) -> Seq<char>
    decreases s.len(),
{
    if s.len() == 0 || is_white_space(s[0]) {
        Seq::empty()
    } else {
        seq![s[0]] + leading_word(s.drop_first())
    }
}

/// The word of a listing line that may name a profile: after trimming, any
/// `*` marker, further white space and a trailing `:` are dropped, and the
/// first white-space separated word remains.
pub open spec fn listing_candidate(line: Seq<char>) -> Seq<char> {
    leading_word(trim_start(strip_colon(trim(strip_stars(trim(line))))))
}

/// Profiles named by listing lines, each kept once at its first mention.
pub open spec fn collect_listed(found: Seq<PowerProfile>, lines: Seq<Seq<char>>) -> Seq<
    PowerProfile,
>
    decreases lines.len(),
{
    if lines.len() == 0 {
        found
    } else {
        let next = match spec_parse_profile(listing_candidate(lines[0])) {
            Some(p) => if found.contains(p) {
                found
            } else {
                found.push(p)
            },
            None => found,
        };
        collect_listed(next, lines.drop_first())
    }
}

/// The first line that, once trimmed, is exactly a profile name.
pub open spec fn first_named_profile(lines: Seq<Seq<char>>) -> Option<PowerProfile>
    decreases lines.len(),
{
    if lines.len() == 0 {
        None
    } else {
        match spec_parse_profile(trim(lines[0])) {
            Some(p) => Some(p),
            None => first_named_profile(lines.drop_first()),
        }
    }
}

/// Profiles in a `powerprofilesctl list` output; output that is not UTF-8
/// lists nothing.
pub open spec fn spec_listed_profiles(output: Seq<u8>) -> Seq<PowerProfile> {
    if valid_utf8(output) {
        collect_listed(Seq::empty(), newline_pieces(decode_utf8(output)))
    } else {
        Seq::empty()
    }
}

/// The profile in a `powerprofilesctl get` output.
pub open spec fn spec_active_profile(output: Seq<u8>) -> Option<PowerProfile> {
    if valid_utf8(output) {
        first_named_profile(newline_pieces(decode_utf8(output)))
    } else {
        None
    }
}

proof fn lemma_pieces_split(s: Seq<char>, k: int)
    requires
        0 <= k < s.len(),
        s[k] == '\n',
        forall|j: int| 0 <= j < k ==> s[j] != '\n',
    ensures
        newline_pieces(s) == seq![s.take(k)] + newline_pieces(s.skip(k + 1)),
    decreases k,
{
    if k == 0 {
        assert(s.take(0) =~= Seq::<char>::empty());
        assert(s.drop_first() =~= s.skip(1));
    } else {
        let t = s.drop_first();
        lemma_pieces_split(t, k - 1);
        assert(t.skip(k) =~= s.skip(k + 1));
        assert(seq![s[0]] + t.take(k - 1) =~= s.take(k));
        let rest = newline_pieces(t);
        assert(rest[0] == t.take(k - 1));
        assert(rest.update(0, seq![s[0]] + rest[0]) =~= seq![s.take(k)] + newline_pieces(
            s.skip(k + 1),
        ));
    }
}

proof fn lemma_pieces_last(s: Seq<char>)
    requires
        forall|j: int| 0 <= j < s.len() ==> s[j] != '\n',
    ensures
        newline_pieces(s) == seq![s],
    decreases s.len(),
{
    if s.len() == 0 {
        assert(s =~= Seq::<char>::empty());
    } else {
        assert(s[0] != '\n');
        lemma_pieces_last(s.drop_first());
        assert(seq![s[0]] + s.drop_first() =~= s);
        assert(newline_pieces(s.drop_first()).update(0, seq![s[0]] + s.drop_first()) =~= seq![s]);
    }
}

/// Finds the end of the line starting at `lo`: the position of the next
/// `'\n'`, or the end of the text.
fn line_end(cs: &[char], lo: usize) -> (r: usize)
    requires
        lo <= cs@.len(),
    ensures
        lo <= r <= cs@.len(),
        forall|j: int| lo <= j < r ==> cs@[j] != '\n',
        r < cs@.len() ==> cs@[r as int] == '\n',
{
    let mut i = lo;
    while i < cs.len() && cs[i] != '\n'
        invariant
            lo <= i <= cs@.len(),
            forall|j: int| lo <= j < i ==> cs@[j] != '\n',
        decreases cs.len() - i,
    {
        i = i + 1;
    }
    i
}

proof fn lemma_line_step(s: Seq<char>, lo: int, hi: int)
    requires
        0 <= lo <= hi <= s.len(),
        forall|j: int| lo <= j < hi ==> s[j] != '\n',
        hi < s.len() ==> s[hi] == '\n',
    ensures
        hi < s.len() ==> newline_pieces(s.skip(lo)) == seq![s.subrange(lo, hi)] + newline_pieces(
            s.skip(hi + 1),
        ),
        hi == s.len() ==> newline_pieces(s.skip(lo)) == seq![s.subrange(lo, hi)],
{
    let t = s.skip(lo);
    if hi < s.len() {
        assert(t[hi - lo] == '\n');
        lemma_pieces_split(t, hi - lo);
        assert(t.take(hi - lo) =~= s.subrange(lo, hi));
        assert(t.skip(hi - lo + 1) =~= s.skip(hi + 1));
    } else {
        lemma_pieces_last(t);
        assert(t =~= s.subrange(lo, hi));
    }
}

/// Bounds of the listing candidate of the line `cs[lo..hi]`.
fn candidate_bounds(cs: &[char], lo: usize, hi: usize) -> (r: (usize, usize))
    requires
        lo <= hi <= cs@.len(),
    ensures
        r.0 <= r.1 <= cs@.len(),
        cs@.subrange(r.0 as int, r.1 as int) == listing_candidate(cs@.subrange(lo as int, hi as int)),
{
    let ghost line = cs@.subrange(lo as int, hi as int);
    let (a, b) = trim_bounds(cs, lo, hi);
    // Drop leading stars.
    let mut a2 = a;
    while a2 < b && cs[a2] == '*'
        invariant
            a <= a2 <= b <= cs@.len(),
            strip_stars(cs@.subrange(a as int, b as int)) == strip_stars(cs@.subrange(a2 as int, b as int)),
        decreases b - a2,
    {
        assert(cs@.subrange(a2 as int, b as int).drop_first() =~= cs@.subrange(a2 + 1, b as int));
        a2 = a2 + 1;
    }
    assert(strip_stars(cs@.subrange(a2 as int, b as int)) == cs@.subrange(a2 as int, b as int));
    let (c, d) = trim_bounds(cs, a2, b);
    // Drop one trailing colon.
    let d2 = if c < d && cs[d - 1] == ':' {
        assert(cs@.subrange(c as int, d as int).drop_last() =~= cs@.subrange(c as int, d - 1));
        d - 1
    } else {
        d
    };
    assert(strip_colon(cs@.subrange(c as int, d as int)) == cs@.subrange(c as int, d2 as int));
    // Skip leading white space, then take the first word.
    let e = trim_start_bound(cs, c, d2);
    let mut g = e;
    while g < d2 && !is_whitespace_char(cs[g])
        invariant
            e <= g <= d2 <= cs@.len(),
            forall|j: int| e <= j < g ==> !is_white_space(#[trigger] cs@[j]),
        decreases d2 - g,
    {
        g = g + 1;
    }
    proof {
        lemma_leading_word_bounds(cs@, e as int, g as int, d2 as int);
    }
    (e, g)
}

proof fn lemma_leading_word_bounds(s: Seq<char>, e: int, g: int, hi: int)
    requires
        0 <= e <= g <= hi <= s.len(),
        forall|j: int| e <= j < g ==> !is_white_space(#[trigger] s[j]),
        g < hi ==> is_white_space(s[g]),
    ensures
        leading_word(s.subrange(e, hi)) == s.subrange(e, g),
    decreases g - e,
{
    if e < g {
        lemma_leading_word_bounds(s, e + 1, g, hi);
        assert(s.subrange(e, hi).drop_first() =~= s.subrange(e + 1, hi));
        assert(seq![s[e]] + s.subrange(e + 1, g) =~= s.subrange(e, g));
    } else {
        assert(s.subrange(e, g) =~= Seq::<char>::empty());
    }
}

/// Reads the profiles named in `powerprofilesctl list` output, in order of
/// first mention and without repetition. Each line is reduced to its first
/// word after an optional `*` marker and trailing `:`; output that is not
/// UTF-8 names no profile.
pub fn parse_list_profiles(output: &[u8]) -> (r: Vec<PowerProfile>)
    ensures
        r@ == spec_listed_profiles(output@),
{
    let text = match decode_utf8_text(output) {
        Some(text) => text,
        None => return Vec::new(),
    };
    let cs = chars_of(text);
    let ghost s = cs@;
    let mut profiles: Vec<PowerProfile> = Vec::new();
    let mut lo: usize = 0;
    assert(s.skip(0) =~= s);
    loop
        invariant
            s == cs@,
            s == decode_utf8(output@),
            valid_utf8(output@),
            lo <= cs@.len(),
            collect_listed(Seq::empty(), newline_pieces(s)) == collect_listed(
                profiles@,
                newline_pieces(s.skip(lo as int)),
            ),
        decreases cs@.len() - lo,
    {
        let hi = line_end(cs.as_slice(), lo);
        proof {
            lemma_line_step(s, lo as int, hi as int);
        }
        let (a, b) = candidate_bounds(cs.as_slice(), lo, hi);
        let parsed = parse_profile_range(cs.as_slice(), a, b);
        let ghost before = profiles@;
        match parsed {
            Some(p) => {
                if !vec_contains_profile(&profiles, p) {
                    profiles.push(p);
                }
            },
            None => {},
        }
        if hi == cs.len() {
            proof {
                let pieces = seq![s.subrange(lo as int, hi as int)];
                assert(pieces.drop_first() =~= Seq::<Seq<char>>::empty());
                assert(pieces[0] == s.subrange(lo as int, hi as int));
                assert(collect_listed(profiles@, Seq::<Seq<char>>::empty()) == profiles@);
                assert(collect_listed(before, pieces) == profiles@);
            }
            return profiles;
        }
        proof {
            let pieces = seq![s.subrange(lo as int, hi as int)] + newline_pieces(s.skip(hi + 1));
            assert(pieces.drop_first() =~= newline_pieces(s.skip(hi + 1)));
        }
        lo = hi + 1;
    }
}

fn vec_contains_profile(v: &Vec<PowerProfile>, p: PowerProfile) -> (r: bool)
    ensures
        r == v@.contains(p),
{
    let mut i: usize = 0;
    while i < v.len()
        invariant
            i <= v@.len(),
            forall|j: int| 0 <= j < i ==> v@[j] != p,
        decreases v.len() - i,
    {
        if v[i] == p {
            return true;
        }
        i = i + 1;
    }
    false
}

/// Reads the active profile from `powerprofilesctl get` output: the first
/// line that, once trimmed, is exactly a profile name.
pub fn parse_active_profile(output: &[u8]) -> (r: Option<PowerProfile>)
    ensures
        r == spec_active_profile(output@),
{
    let text = match decode_utf8_text(output) {
        Some(text) => text,
        None => return None,
    };
    let cs = chars_of(text);
    let ghost s = cs@;
    let mut lo: usize = 0;
    assert(s.skip(0) =~= s);
    loop
        invariant
            s == cs@,
            s == decode_utf8(output@),
            valid_utf8(output@),
            lo <= cs@.len(),
            first_named_profile(newline_pieces(s)) == first_named_profile(
                newline_pieces(s.skip(lo as int)),
            ),
        decreases cs@.len() - lo,
    {
        let hi = line_end(cs.as_slice(), lo);
        proof {
            lemma_line_step(s, lo as int, hi as int);
        }
        let (a, b) = trim_bounds(cs.as_slice(), lo, hi);
        let parsed = parse_profile_range(cs.as_slice(), a, b);
        if parsed.is_some() {
            return parsed;
        }
        if hi == cs.len() {
            proof {
                let pieces = seq![s.subrange(lo as int, hi as int)];
                assert(pieces.drop_first() =~= Seq::<Seq<char>>::empty());
                assert(pieces[0] == s.subrange(lo as int, hi as int));
                assert(first_named_profile(Seq::<Seq<char>>::empty()) == None::<PowerProfile>);
                assert(first_named_profile(pieces) == None::<PowerProfile>);
            }
            return None;
        }
        proof {
            let pieces = seq![s.subrange(lo as int, hi as int)] + newline_pieces(s.skip(hi + 1));
            assert(pieces.drop_first() =~= newline_pieces(s.skip(hi + 1)));
        }
        lo = hi + 1;
    }
}

} // verus!

verus! {

// ---------------------------------------------------------------------------
// The get/set protocol
// ---------------------------------------------------------------------------

/// Why the power-profile backend could not answer.
#[derive(Clone, Copy, Debug, PartialEq, Eq)]
pub enum AdapterError {
    /// The backend is not installed on this system.
    Unsupported(&'static str),
    /// The backend exists but could not answer now.
    Unavailable(&'static str),
}

/// What happened when `powerprofilesctl` was started.
#[derive(Clone, Debug)]
pub enum CommandOutcome {
    /// The executable was not found.
    NotFound,
    /// The process could not be started for another reason.
    LaunchFailed,
    /// The process ran to completion.
    Exited {
        /// Whether it exited successfully.
        success: bool,
        /// Its standard output.
        stdout: Vec<u8>,
        /// The size of its standard error, in bytes.
        stderr_len: usize,
    },
}

/// A fixed `powerprofilesctl` invocation.
#[derive(Clone, Copy, Debug, PartialEq, Eq, Structural)]
pub enum ProfileCommand {
    /// `powerprofilesctl list`
    List,
    /// `powerprofilesctl get`
    Get,
    /// `powerprofilesctl set <profile>`
    Change(PowerProfile),
}

impl ProfileCommand {
    /// The arguments passed to `powerprofilesctl`; only allowlisted profile
    /// names ever become an argument.
    pub fn arguments(self) -> (r: Vec<&'static str>)
        ensures
            self == ProfileCommand::List ==> r@.len() == 1 && r@[0]@ == "list"@,
            self == ProfileCommand::Get ==> r@.len() == 1 && r@[0]@ == "get"@,
            self matches ProfileCommand::Change(p) ==> r@.len() == 2 && r@[0]@ == "set"@ && r@[1]@
                == profile_name(p),
    {
        match self {
            ProfileCommand::List => vec!["list"],
            ProfileCommand::Get => vec!["get"],
            ProfileCommand::Change(profile) => vec!["set", profile.as_str()],
        }
    }
}

/// The backend's reported state.
#[derive(Clone, Debug)]
pub struct BackendStatus {
    /// Profile currently active.
    pub active: PowerProfile,
    /// Profiles the backend lists, in the daemon's order.
    pub available: Vec<PowerProfile>,
}

/// A stable response for profile discovery and changes.
#[derive(Clone, Debug)]
pub struct PowerProfileResponse {
    /// Response schema version.
    pub schema_version: u8,
    /// `available`, `unsupported`, or `unavailable`.
    pub availability: &'static str,
    /// Whether the requested backend/profile operation is supported.
    pub supported: bool,
    /// Profile currently reported by the backend.
    pub active_profile: Option<PowerProfile>,
    /// Allowlisted profiles observed in the backend's profile listing.
    pub available_profiles: Vec<PowerProfile>,
    /// Profile requested by a set operation, if any.
    pub requested_profile: Option<PowerProfile>,
    /// True only after a set operation was confirmed by a fresh `get` query.
    pub changed: bool,
    /// Machine-readable explanation when the result is not available.
    pub unavailable_reason: Option<&'static str>,
    /// A concise local diagnostic, when useful.
    pub error: Option<&'static str>,
}

/// The content of a [`PowerProfileResponse`].
pub struct ResponseModel {
    pub schema_version: u8,
    pub availability: Seq<char>,
    pub supported: bool,
    pub active_profile: Option<PowerProfile>,
    pub available_profiles: Seq<PowerProfile>,
    pub requested_profile: Option<PowerProfile>,
    pub changed: bool,
    pub unavailable_reason: Option<Seq<char>>,
    pub error: Option<Seq<char>>,
}

/// The text of an optional static string.
pub open spec fn opt_text(value: Option<&'static str>) -> Option<Seq<char>> {
    match value {
        Some(s) => Some(s@),
        None => None,
    }
}

impl View for PowerProfileResponse {
    type V = ResponseModel;

    open spec fn view(&self) -> ResponseModel {
        ResponseModel {
            schema_version: self.schema_version,
            availability: self.availability@,
            supported: self.supported,
            active_profile: self.active_profile,
            available_profiles: self.available_profiles@,
            requested_profile: self.requested_profile,
            changed: self.changed,
            unavailable_reason: opt_text(self.unavailable_reason),
            error: opt_text(self.error),
        }
    }
}

/// The next thing the caller must do.
#[derive(Clone, Debug)]
pub enum ProfileStep {
    /// Run this command and resume the task with its outcome.
    Run(ProfileCommand),
    /// The operation is over; report this response.
    Done(PowerProfileResponse),
}

/// The content of a [`ProfileStep`].
pub enum StepModel {
    Run(ProfileCommand),
    Done(ResponseModel),
}

impl View for ProfileStep {
    type V = StepModel;

    open spec fn view(&self) -> StepModel {
        match self {
            ProfileStep::Run(c) => StepModel::Run(*c),
            ProfileStep::Done(r) => StepModel::Done(r@),
        }
    }
}

/// A profile query or change in progress: which command's outcome it waits for.
#[derive(Clone, Debug)]
pub enum ProfileTask {
    /// Reading the listing for a query.
    ListForGet,
    /// Reading the active profile for a query.
    ActiveForGet { available: Vec<PowerProfile> },
    /// Reading the listing before a change.
    ListBeforeSet { requested: PowerProfile },
    /// Reading the active profile before a change.
    ActiveBeforeSet { requested: PowerProfile, available: Vec<PowerProfile> },
    /// Waiting for `set` to finish.
    Applying { requested: PowerProfile, status: BackendStatus },
    /// Reading the listing to confirm a change.
    ListAfterSet { requested: PowerProfile },
    /// Reading the active profile to confirm a change.
    ActiveAfterSet { requested: PowerProfile, available: Vec<PowerProfile> },
    /// Nothing remains to run.
    Finished,
}

/// The content of a [`ProfileTask`].
pub enum TaskModel {
    ListForGet,
    ActiveForGet { available: Seq<PowerProfile> },
    ListBeforeSet { requested: PowerProfile },
    ActiveBeforeSet { requested: PowerProfile, available: Seq<PowerProfile> },
    Applying { requested: PowerProfile, active: PowerProfile, available: Seq<PowerProfile> },
    ListAfterSet { requested: PowerProfile },
    ActiveAfterSet { requested: PowerProfile, available: Seq<PowerProfile> },
    Finished,
}

impl View for ProfileTask {
    type V = TaskModel;

    open spec fn view(&self) -> TaskModel {
        match self {
            ProfileTask::ListForGet => TaskModel::ListForGet,
            ProfileTask::ActiveForGet { available } => TaskModel::ActiveForGet {
                available: available@,
            },
            ProfileTask::ListBeforeSet { requested } => TaskModel::ListBeforeSet {
                requested: *requested,
            },
            ProfileTask::ActiveBeforeSet { requested, available } => TaskModel::ActiveBeforeSet {
                requested: *requested,
                available: available@,
            },
            ProfileTask::Applying { requested, status } => TaskModel::Applying {
                requested: *requested,
                active: status.active,
                available: status.available@,
            },
            ProfileTask::ListAfterSet { requested } => TaskModel::ListAfterSet {
                requested: *requested,
            },
            ProfileTask::ActiveAfterSet { requested, available } => TaskModel::ActiveAfterSet {
                requested: *requested,
                available: available@,
            },
            ProfileTask::Finished => TaskModel::Finished,
        }
    }
}

/// What a finished command means for the protocol: a launch failure or an
/// oversized output is an adapter error; otherwise its exit status and
/// standard output.
pub open spec fn spec_invoke(outcome: CommandOutcome) -> Result<(bool, Seq<u8>), AdapterError> {
    match outcome {
        CommandOutcome::NotFound => Err(AdapterError::Unsupported("powerprofilesctl-not-found")),
        CommandOutcome::LaunchFailed => Err(
            AdapterError::Unavailable("powerprofilesctl-unavailable"),
        ),
        CommandOutcome::Exited { success, stdout, stderr_len } => {
            if stdout@.len() > MAX_OUTPUT_BYTES || stderr_len > MAX_OUTPUT_BYTES {
                Err(AdapterError::Unavailable("backend-output-too-large"))
            } else {
                Ok((success, stdout@))
            }
        },
    }
}

/// The profiles a `list` outcome reports.
pub open spec fn spec_list_step(outcome: CommandOutcome) -> Result<Seq<PowerProfile>, AdapterError> {
    match spec_invoke(outcome) {
        Err(e) => Err(e),
        Ok((success, stdout)) => if success {
            Ok(spec_listed_profiles(stdout))
        } else {
            Err(AdapterError::Unavailable("profile-list-failed"))
        },
    }
}

/// The allowlisted profiles of `found`, in the daemon's order, each once.
pub open spec fn canonical_profiles(found: Seq<PowerProfile>) -> Seq<PowerProfile> {
    let a = if found.contains(PowerProfile::PowerSaver) {
        seq![PowerProfile::PowerSaver]
    } else {
        Seq::empty()
    };
    let b = if found.contains(PowerProfile::Balanced) {
        seq![PowerProfile::Balanced]
    } else {
        Seq::empty()
    };
    let c = if found.contains(PowerProfile::Performance) {
        seq![PowerProfile::Performance]
    } else {
        Seq::empty()
    };
    a + b + c
}

/// The backend status a `get` outcome establishes, given the profiles listed
/// just before. A listing that names no profile is trusted only for the
/// active one; an active profile missing from a non-empty listing is an
/// inconsistency.
pub open spec fn spec_active_step(available: Seq<PowerProfile>, outcome: CommandOutcome) -> Result<
    (PowerProfile, Seq<PowerProfile>),
    AdapterError,
> {
    match spec_invoke(outcome) {
        Err(e) => Err(e),
        Ok((success, stdout)) => if !success {
            Err(AdapterError::Unavailable("profile-query-failed"))
        } else {
            match spec_active_profile(stdout) {
                None => Err(AdapterError::Unavailable("invalid-active-profile")),
                Some(active) => if available.len() == 0 {
                    Ok((active, seq![active]))
                } else if !available.contains(active) {
                    Err(AdapterError::Unavailable("active-profile-not-listed"))
                } else {
                    Ok((active, canonical_profiles(available)))
                },
            }
        },
    }
}

/// A successful answer.
pub open spec fn spec_available_response(
    active: PowerProfile,
    available: Seq<PowerProfile>,
    requested: Option<PowerProfile>,
    changed: bool,
) -> ResponseModel {
    ResponseModel {
        schema_version: 1,
        availability: "available"@,
        supported: true,
        active_profile: Some(active),
        available_profiles: available,
        requested_profile: requested,
        changed,
        unavailable_reason: None,
        error: None,
    }
}

/// The answer for an adapter error.
pub open spec fn spec_error_response(error: AdapterError, requested: Option<PowerProfile>) -> ResponseModel {
    match error {
        AdapterError::Unsupported(reason) => ResponseModel {
            schema_version: 1,
            availability: "unsupported"@,
            supported: false,
            active_profile: None,
            available_profiles: Seq::empty(),
            requested_profile: requested,
            changed: false,
            unavailable_reason: Some(reason@),
            error: Some("the local power-profile backend is unsupported"@),
        },
        AdapterError::Unavailable(reason) => ResponseModel {
            schema_version: 1,
            availability: "unavailable"@,
            supported: true,
            active_profile: None,
            available_profiles: Seq::empty(),
            requested_profile: requested,
            changed: false,
            unavailable_reason: Some(reason@),
            error: Some("the local power-profile backend is currently unavailable"@),
        },
    }
}

/// A request that names no allowlisted profile.
pub open spec fn spec_invalid_request_response() -> ResponseModel {
    ResponseModel {
        schema_version: 1,
        availability: "unavailable"@,
        supported: false,
        active_profile: None,
        available_profiles: Seq::empty(),
        requested_profile: None,
        changed: false,
        unavailable_reason: Some("invalid-request"@),
        error: Some("profile must be power-saver, balanced, or performance"@),
    }
}

/// A requested profile that the backend does not list.
pub open spec fn spec_unsupported_profile_response(
    requested: PowerProfile,
    active: PowerProfile,
    available: Seq<PowerProfile>,
) -> ResponseModel {
    ResponseModel {
        schema_version: 1,
        availability: "unsupported"@,
        supported: false,
        active_profile: Some(active),
        available_profiles: available,
        requested_profile: Some(requested),
        changed: false,
        unavailable_reason: Some("profile-unsupported"@),
        error: Some("the requested profile is not reported by the local backend"@),
    }
}

/// A `set` command that the backend rejected.
pub open spec fn spec_change_failed_response(
    requested: PowerProfile,
    active: PowerProfile,
    available: Seq<PowerProfile>,
) -> ResponseModel {
    ResponseModel {
        schema_version: 1,
        availability: "unavailable"@,
        supported: true,
        active_profile: Some(active),
        available_profiles: available,
        requested_profile: Some(requested),
        changed: false,
        unavailable_reason: Some("profile-change-failed"@),
        error: Some("powerprofilesctl could not change the profile"@),
    }
}

/// A change that the fresh query did not confirm.
pub open spec fn spec_not_confirmed_response(
    requested: PowerProfile,
    active: PowerProfile,
    available: Seq<PowerProfile>,
) -> ResponseModel {
    ResponseModel {
        schema_version: 1,
        availability: "unavailable"@,
        supported: true,
        active_profile: Some(active),
        available_profiles: available,
        requested_profile: Some(requested),
        changed: false,
        unavailable_reason: Some("profile-change-not-confirmed"@),
        error: Some("the backend did not report the requested profile as active"@),
    }
}

/// The protocol: what a task does with the outcome of the command it ran.
pub open spec fn spec_resume(task: TaskModel, outcome: CommandOutcome) -> (TaskModel, StepModel) {
    match task {
        TaskModel::ListForGet => match spec_list_step(outcome) {
            Err(e) => (TaskModel::Finished, StepModel::Done(spec_error_response(e, None))),
            Ok(available) => (
                TaskModel::ActiveForGet { available },
                StepModel::Run(ProfileCommand::Get),
            ),
        },
        TaskModel::ActiveForGet { available } => match spec_active_step(available, outcome) {
            Err(e) => (TaskModel::Finished, StepModel::Done(spec_error_response(e, None))),
            Ok((active, listed)) => (
                TaskModel::Finished,
                StepModel::Done(spec_available_response(active, listed, None, false)),
            ),
        },
        TaskModel::ListBeforeSet { requested } => match spec_list_step(outcome) {
            Err(e) => (
                TaskModel::Finished,
                StepModel::Done(spec_error_response(e, Some(requested))),
            ),
            Ok(available) => (
                TaskModel::ActiveBeforeSet { requested, available },
                StepModel::Run(ProfileCommand::Get),
            ),
        },
        TaskModel::ActiveBeforeSet { requested, available } => match spec_active_step(
            available,
            outcome,
        ) {
            Err(e) => (
                TaskModel::Finished,
                StepModel::Done(spec_error_response(e, Some(requested))),
            ),
            Ok((active, listed)) => if listed.contains(requested) {
                (
                    TaskModel::Applying { requested, active, available: listed },
                    StepModel::Run(ProfileCommand::Change(requested)),
                )
            } else {
                (
                    TaskModel::Finished,
                    StepModel::Done(spec_unsupported_profile_response(requested, active, listed)),
                )
            },
        },
        TaskModel::Applying { requested, active, available } => match spec_invoke(outcome) {
            Err(e) => (
                TaskModel::Finished,
                StepModel::Done(spec_error_response(e, Some(requested))),
            ),
            Ok((success, _stdout)) => if success {
                (TaskModel::ListAfterSet { requested }, StepModel::Run(ProfileCommand::List))
            } else {
                (
                    TaskModel::Finished,
                    StepModel::Done(spec_change_failed_response(requested, active, available)),
                )
            },
        },
        TaskModel::ListAfterSet { requested } => match spec_list_step(outcome) {
            Err(e) => (
                TaskModel::Finished,
                StepModel::Done(spec_error_response(e, Some(requested))),
            ),
            Ok(available) => (
                TaskModel::ActiveAfterSet { requested, available },
                StepModel::Run(ProfileCommand::Get),
            ),
        },
        TaskModel::ActiveAfterSet { requested, available } => match spec_active_step(
            available,
            outcome,
        ) {
            Err(e) => (
                TaskModel::Finished,
                StepModel::Done(spec_error_response(e, Some(requested))),
            ),
            Ok((active, listed)) => if active == requested {
                (
                    TaskModel::Finished,
                    StepModel::Done(spec_available_response(active, listed, Some(requested), true)),
                )
            } else {
                (
                    TaskModel::Finished,
                    StepModel::Done(spec_not_confirmed_response(requested, active, listed)),
                )
            },
        },
        TaskModel::Finished => (TaskModel::Finished, StepModel::Run(ProfileCommand::Get)),
    }
}

fn invoke_result(outcome: &CommandOutcome) -> (r: Result<(bool, &Vec<u8>), AdapterError>)
    ensures
        match (r, spec_invoke(*outcome)) {
            (Ok((s, out)), Ok((s2, out2))) => s == s2 && out@ == out2,
            (Err(e), Err(e2)) => e == e2,
            _ => false,
        },
{
    match outcome {
        CommandOutcome::NotFound => Err(AdapterError::Unsupported("powerprofilesctl-not-found")),
        CommandOutcome::LaunchFailed => Err(
            AdapterError::Unavailable("powerprofilesctl-unavailable"),
        ),
        CommandOutcome::Exited { success, stdout, stderr_len } => {
            if stdout.len() > MAX_OUTPUT_BYTES || *stderr_len > MAX_OUTPUT_BYTES {
                Err(AdapterError::Unavailable("backend-output-too-large"))
            } else {
                Ok((*success, stdout))
            }
        },
    }
}

fn list_step(outcome: &CommandOutcome) -> (r: Result<Vec<PowerProfile>, AdapterError>)
    ensures
        match (r, spec_list_step(*outcome)) {
            (Ok(v), Ok(s)) => v@ == s,
            (Err(e), Err(e2)) => e == e2,
            _ => false,
        },
{
    match invoke_result(outcome) {
        Err(e) => Err(e),
        Ok((success, stdout)) => if success {
            Ok(parse_list_profiles(stdout.as_slice()))
        } else {
            Err(AdapterError::Unavailable("profile-list-failed"))
        },
    }
}

fn canonical(found: &Vec<PowerProfile>) -> (r: Vec<PowerProfile>)
    ensures
        r@ == canonical_profiles(found@),
{
    let mut out: Vec<PowerProfile> = Vec::new();
    if vec_contains_profile(found, PowerProfile::PowerSaver) {
        out.push(PowerProfile::PowerSaver);
    }
    let ghost a = out@;
    if vec_contains_profile(found, PowerProfile::Balanced) {
        out.push(PowerProfile::Balanced);
    }
    let ghost ab = out@;
    if vec_contains_profile(found, PowerProfile::Performance) {
        out.push(PowerProfile::Performance);
    }
    proof {
        let sa = if found@.contains(PowerProfile::PowerSaver) {
            seq![PowerProfile::PowerSaver]
        } else {
            Seq::empty()
        };
        let sb = if found@.contains(PowerProfile::Balanced) {
            seq![PowerProfile::Balanced]
        } else {
            Seq::empty()
        };
        let sc = if found@.contains(PowerProfile::Performance) {
            seq![PowerProfile::Performance]
        } else {
            Seq::empty()
        };
        assert(a =~= sa);
        assert(ab =~= sa + sb);
        assert(out@ =~= sa + sb + sc);
    }
    out
}

fn active_step(available: &Vec<PowerProfile>, outcome: &CommandOutcome) -> (r: Result<
    BackendStatus,
    AdapterError,
>)
    ensures
        match (r, spec_active_step(available@, *outcome)) {
            (Ok(st), Ok((a, l))) => st.active == a && st.available@ == l,
            (Err(e), Err(e2)) => e == e2,
            _ => false,
        },
{
    match invoke_result(outcome) {
        Err(e) => Err(e),
        Ok((success, stdout)) => {
            if !success {
                return Err(AdapterError::Unavailable("profile-query-failed"));
            }
            match parse_active_profile(stdout.as_slice()) {
                None => Err(AdapterError::Unavailable("invalid-active-profile")),
                Some(active) => {
                    if available.len() == 0 {
                        let listed = vec![active];
                        Ok(BackendStatus { active, available: listed })
                    } else if !vec_contains_profile(available, active) {
                        Err(AdapterError::Unavailable("active-profile-not-listed"))
                    } else {
                        Ok(BackendStatus { active, available: canonical(available) })
                    }
                },
            }
        },
    }
}

/// Builds the successful answer for a confirmed backend status.
pub fn available_response(
    status: BackendStatus,
    requested_profile: Option<PowerProfile>,
    changed: bool,
) -> (r: PowerProfileResponse)
    ensures
        r@ == spec_available_response(status.active, status.available@, requested_profile, changed),
{
    PowerProfileResponse {
        schema_version: 1,
        availability: "available",
        supported: true,
        active_profile: Some(status.active),
        available_profiles: status.available,
        requested_profile,
        changed,
        unavailable_reason: None,
        error: None,
    }
}

/// Builds the answer for an adapter error.
pub fn error_response(error: AdapterError, requested_profile: Option<PowerProfile>) -> (r:
    PowerProfileResponse)
    ensures
        r@ == spec_error_response(error, requested_profile),
{
    match error {
        AdapterError::Unsupported(reason) => PowerProfileResponse {
            schema_version: 1,
            availability: "unsupported",
            supported: false,
            active_profile: None,
            available_profiles: Vec::new(),
            requested_profile,
            changed: false,
            unavailable_reason: Some(reason),
            error: Some("the local power-profile backend is unsupported"),
        },
        AdapterError::Unavailable(reason) => PowerProfileResponse {
            schema_version: 1,
            availability: "unavailable",
            supported: true,
            active_profile: None,
            available_profiles: Vec::new(),
            requested_profile,
            changed: false,
            unavailable_reason: Some(reason),
            error: Some("the local power-profile backend is currently unavailable"),
        },
    }
}

/// Starts reading the active profile without changing system state; the
/// first step lists the backend's profiles.
pub fn get_profile() -> (r: (ProfileTask, ProfileStep))
    ensures
        r.0@ == TaskModel::ListForGet,
        r.1@ == StepModel::Run(ProfileCommand::List),
{
    (ProfileTask::ListForGet, ProfileStep::Run(ProfileCommand::List))
}

/// Starts changing the profile. A request that is not exactly an
/// allowlisted name finishes at once without running any command;
/// otherwise the backend is queried first.
pub fn set_profile(requested: &str) -> (r: (ProfileTask, ProfileStep))
    ensures
        spec_parse_profile(requested@) is None ==> r.0@ == TaskModel::Finished && r.1@
            == StepModel::Done(spec_invalid_request_response()),
        spec_parse_profile(requested@) matches Some(p) ==> r.0@ == (TaskModel::ListBeforeSet {
            requested: p,
        }) && r.1@ == StepModel::Run(ProfileCommand::List),
{
    match PowerProfile::parse(requested) {
        None => (
            ProfileTask::Finished,
            ProfileStep::Done(
                PowerProfileResponse {
                    schema_version: 1,
                    availability: "unavailable",
                    supported: false,
                    active_profile: None,
                    available_profiles: Vec::new(),
                    requested_profile: None,
                    changed: false,
                    unavailable_reason: Some("invalid-request"),
                    error: Some("profile must be power-saver, balanced, or performance"),
                },
            ),
        ),
        Some(p) => (ProfileTask::ListBeforeSet { requested: p }, ProfileStep::Run(ProfileCommand::List)),
    }
}

impl ProfileTask {
    /// Continues the task with the outcome of the command it last asked for.
    pub fn resume(self, outcome: &CommandOutcome) -> (r: (ProfileTask, ProfileStep))
        requires
            self@ != TaskModel::Finished,
        ensures
            (r.0@, r.1@) == spec_resume(self@, *outcome),
    {
        match self {
            ProfileTask::ListForGet => match list_step(outcome) {
                Err(e) => (ProfileTask::Finished, ProfileStep::Done(error_response(e, None))),
                Ok(available) => (
                    ProfileTask::ActiveForGet { available },
                    ProfileStep::Run(ProfileCommand::Get),
                ),
            },
            ProfileTask::ActiveForGet { available } => match active_step(&available, outcome) {
                Err(e) => (ProfileTask::Finished, ProfileStep::Done(error_response(e, None))),
                Ok(status) => (
                    ProfileTask::Finished,
                    ProfileStep::Done(available_response(status, None, false)),
                ),
            },
            ProfileTask::ListBeforeSet { requested } => match list_step(outcome) {
                Err(e) => (
                    ProfileTask::Finished,
                    ProfileStep::Done(error_response(e, Some(requested))),
                ),
                Ok(available) => (
                    ProfileTask::ActiveBeforeSet { requested, available },
                    ProfileStep::Run(ProfileCommand::Get),
                ),
            },
            ProfileTask::ActiveBeforeSet { requested, available } => match active_step(
                &available,
                outcome,
            ) {
                Err(e) => (
                    ProfileTask::Finished,
                    ProfileStep::Done(error_response(e, Some(requested))),
                ),
                Ok(status) => {
                    if vec_contains_profile(&status.available, requested) {
                        (
                            ProfileTask::Applying { requested, status },
                            ProfileStep::Run(ProfileCommand::Change(requested)),
                        )
                    } else {
                        let active = status.active;
                        (
                            ProfileTask::Finished,
                            ProfileStep::Done(
                                PowerProfileResponse {
                                    schema_version: 1,
                                    availability: "unsupported",
                                    supported: false,
                                    active_profile: Some(active),
                                    available_profiles: status.available,
                                    requested_profile: Some(requested),
                                    changed: false,
                                    unavailable_reason: Some("profile-unsupported"),
                                    error: Some(
                                        "the requested profile is not reported by the local backend",
                                    ),
                                },
                            ),
                        )
                    }
                },
            },
            ProfileTask::Applying { requested, status } => match invoke_result(outcome) {
                Err(e) => (
                    ProfileTask::Finished,
                    ProfileStep::Done(error_response(e, Some(requested))),
                ),
                Ok((success, _stdout)) => {
                    if success {
                        (
                            ProfileTask::ListAfterSet { requested },
                            ProfileStep::Run(ProfileCommand::List),
                        )
                    } else {
                        let active = status.active;
                        (
                            ProfileTask::Finished,
                            ProfileStep::Done(
                                PowerProfileResponse {
                                    schema_version: 1,
                                    availability: "unavailable",
                                    supported: true,
                                    active_profile: Some(active),
                                    available_profiles: status.available,
                                    requested_profile: Some(requested),
                                    changed: false,
                                    unavailable_reason: Some("profile-change-failed"),
                                    error: Some("powerprofilesctl could not change the profile"),
                                },
                            ),
                        )
                    }
                },
            },
            ProfileTask::ListAfterSet { requested } => match list_step(outcome) {
                Err(e) => (
                    ProfileTask::Finished,
                    ProfileStep::Done(error_response(e, Some(requested))),
                ),
                Ok(available) => (
                    ProfileTask::ActiveAfterSet { requested, available },
                    ProfileStep::Run(ProfileCommand::Get),
                ),
            },
            ProfileTask::ActiveAfterSet { requested, available } => match active_step(
                &available,
                outcome,
            ) {
                Err(e) => (
                    ProfileTask::Finished,
                    ProfileStep::Done(error_response(e, Some(requested))),
                ),
                Ok(after) => {
                    if after.active == requested {
                        (
                            ProfileTask::Finished,
                            ProfileStep::Done(available_response(after, Some(requested), true)),
                        )
                    } else {
                        let active = after.active;
                        (
                            ProfileTask::Finished,
                            ProfileStep::Done(
                                PowerProfileResponse {
                                    schema_version: 1,
                                    availability: "unavailable",
                                    supported: true,
                                    active_profile: Some(active),
                                    available_profiles: after.available,
                                    requested_profile: Some(requested),
                                    changed: false,
                                    unavailable_reason: Some("profile-change-not-confirmed"),
                                    error: Some(
                                        "the backend did not report the requested profile as active",
                                    ),
                                },
                            ),
                        )
                    }
                },
            },
            ProfileTask::Finished => (ProfileTask::Finished, ProfileStep::Run(ProfileCommand::Get)),
        }
    }
}

} // verus!

verus! {

/// A response reports a change only when a fresh query after `set`
/// confirmed the requested profile as the active one.
pub proof fn lemma_change_is_confirmed(task: TaskModel, outcome: CommandOutcome)
    requires
        spec_resume(task, outcome).1 matches StepModel::Done(response) && response.changed,
    ensures
        task is ActiveAfterSet,
        task matches TaskModel::ActiveAfterSet { requested, .. } ==> (spec_resume(task, outcome).1
            matches StepModel::Done(response) && response.requested_profile == Some(requested)
            && response.active_profile == Some(requested)),
{
}

/// `set` is only ever run for the requested profile, and only after the
/// backend's own listing and active-profile query were read and the listing
/// named that profile.
pub proof fn lemma_change_only_for_listed_request(task: TaskModel, outcome: CommandOutcome)
    requires
        spec_resume(task, outcome).1 matches StepModel::Run(ProfileCommand::Change(p)),
    ensures
        task is ActiveBeforeSet,
        task matches TaskModel::ActiveBeforeSet { requested, available } ==> (spec_resume(
            task,
            outcome,
        ).1 == StepModel::Run(ProfileCommand::Change(requested)) && (spec_active_step(
            available,
            outcome,
        ) matches Ok((_active, listed)) && listed.contains(requested))),
{
}

/// A query never changes the profile: starting from `get_profile`, no step
/// of the query runs `set`.
pub proof fn lemma_query_never_changes(outcome: CommandOutcome, available: Seq<PowerProfile>)
    ensures
        !(spec_resume(TaskModel::ListForGet, outcome).1 is Run && spec_resume(
            TaskModel::ListForGet,
            outcome,
        ).1 matches StepModel::Run(ProfileCommand::Change(_))),
        !(spec_resume(TaskModel::ActiveForGet { available }, outcome).1 matches StepModel::Run(
            ProfileCommand::Change(_),
        )),
        spec_resume(TaskModel::ListForGet, outcome).0 is Finished || spec_resume(
            TaskModel::ListForGet,
            outcome,
        ).0 is ActiveForGet,
        spec_resume(TaskModel::ActiveForGet { available }, outcome).0 is Finished,
{
}

} // verus!
