//! Finding the time zone of a position.
//!
//! Two services on the web tell the name of the time zone that a position lies in.
//! They are asked by a worker off the main loop. The name is kept across restarts.

use crate::calendar;
use crate::gps::{self, GpsSnapshot, ZoneSettings};
use crate::rtc::RtcSnapshot;
use crate::text;
use vstd::prelude::*;
use vstd::slice::slice_subrange;
use vstd::utf8::{decode_utf8, valid_utf8};

verus! {

/// Time between two lookups once a time zone is set.
pub const TZ_LOOKUP_REFRESH_US: i64 = 21_600_000_000;

/// Time between two lookups until a time zone is set.
pub const TZ_LOOKUP_RETRY_US: i64 = 300_000_000;

/// A text in double quotes.
pub open spec fn quoted(s: Seq<char>) -> Seq<char> {
    seq!['"'] + s + seq!['"']
}

/// What stands behind a quoted key that a text begins with, and behind the colon after
/// it, if the text begins so. White space may stand before the colon.
pub open spec fn behind_key(s: Seq<char>, quoted_key: Seq<char>) -> Option<Seq<char>> {
    let behind = text::trim_start(s.skip(quoted_key.len() as int));
    if text::begins_with(s, quoted_key) && behind.len() > 0 && behind[0] == ':' {
        Some(behind.skip(1))
    } else {
        None
    }
}

/// What stands behind the first place of a quoted key.
pub open spec fn behind_first_key(s: Seq<char>, quoted_key: Seq<char>) -> Option<Seq<char>>
    decreases s.len(),
{
    if behind_key(s, quoted_key) is Some || s.len() == 0 {
        behind_key(s, quoted_key)
    } else {
        behind_first_key(s.skip(1), quoted_key)
    }
}

/// The string that a text begins with, apart from white space, if it begins with one.
pub open spec fn leading_string(s: Seq<char>) -> Option<Seq<char>> {
    let tail = text::trim_start(s);
    let value = tail.skip(1);
    let end = text::first_index(value, '"');
    if tail.len() > 0 && tail[0] == '"' && end < value.len() {
        Some(value.take(end))
    } else {
        None
    }
}

/// The string behind the first place of a key, if a string stands there. A word in
/// quotes is a key where a colon follows it.
pub open spec fn json_string_field(json: Seq<char>, key: Seq<char>) -> Option<Seq<char>> {
    match behind_first_key(json, quoted(key)) {
        Some(behind) => leading_string(behind),
        None => None,
    }
}

/// Read what stands behind a quoted key and a colon.
fn read_behind_key<'a>(s: &'a [char], quoted_key: &str) -> (r: Option<&'a [char]>)
    ensures
        r is Some <==> behind_key(s@, quoted_key@) is Some,
        r matches Some(behind) ==> behind_key(s@, quoted_key@) == Some(behind@),
{
    if !text::starts_with(s, quoted_key) {
        return None;
    }
    let key_len: usize = text::chars_of(quoted_key).len();
    let rest = slice_subrange(s, key_len, s.len());
    assert(rest@ == s@.skip(quoted_key@.len() as int));
    let behind = text::trim_front(rest);
    if behind.len() == 0 || behind[0] != ':' {
        return None;
    }
    assert(behind@.subrange(1, behind@.len() as int) == behind@.skip(1));
    Some(slice_subrange(behind, 1, behind.len()))
}

/// Read the string that a text begins with.
fn read_leading_string(s: &[char]) -> (r: Option<String>)
    ensures
        r is Some <==> leading_string(s@) is Some,
        r matches Some(v) ==> leading_string(s@) == Some(v@),
{
    let tail = text::trim_front(s);
    if tail.len() == 0 || tail[0] != '"' {
        return None;
    }
    let value = slice_subrange(tail, 1, tail.len());
    assert(value@ == tail@.skip(1));
    let end: usize = text::index_of(value, '"');
    if end >= value.len() {
        return None;
    }
    let found = slice_subrange(value, 0, end);
    assert(found@ == value@.take(end as int));
    Some(text::string_of(found))
}

/// Read a string field of a JSON object. `None` comes back if the key is missing or
/// its value is no string.
///
/// The text is not parsed as a whole: the first place counts where the key stands in
/// quotes before a colon, and a value ends at its first double quote.
pub fn extract_json_string_field(json: &str, key: &str) -> (r: Option<String>)
    ensures
        r is Some <==> json_string_field(json@, key@) is Some,
        r matches Some(v) ==> json_string_field(json@, key@) == Some(v@),
{
    let mut needle = String::new();
    needle.push('"');
    needle.append(key);
    needle.push('"');
    assert(needle@ == quoted(key@));
    let chars = text::chars_of(json);
    let n: usize = chars.len();
    let mut i: usize = 0;
    assert(json@.skip(0) == json@);
    while i < n
        invariant
            n == chars@.len(),
            chars@ == json@,
            i <= n,
            needle@ == quoted(key@),
            behind_first_key(json@, needle@) == behind_first_key(json@.skip(i as int), needle@),
        decreases n - i,
    {
        let rest = slice_subrange(chars.as_slice(), i, n);
        assert(rest@ == json@.skip(i as int));
        if let Some(behind) = read_behind_key(rest, needle.as_str()) {
            return read_leading_string(behind);
        }
        assert(json@.skip(i as int).skip(1) == json@.skip(i + 1));
        i = i + 1;
    }
    None
}

/// The name of the time zone in an answer, under any of the keys in use.
pub open spec fn zone_in_body(body: Seq<char>) -> Option<Seq<char>> {
    if json_string_field(body, "timezone"@) is Some {
        json_string_field(body, "timezone"@)
    } else if json_string_field(body, "timezoneId"@) is Some {
        json_string_field(body, "timezoneId"@)
    } else {
        json_string_field(body, "ianaTimeZoneId"@)
    }
}

/// Read the name of the time zone from an answer.
pub fn timezone_from_body(body: &str) -> (r: Option<String>)
    ensures
        r is Some <==> zone_in_body(body@) is Some,
        r matches Some(v) ==> zone_in_body(body@) == Some(v@),
{
    let direct = extract_json_string_field(body, "timezone");
    if direct.is_some() {
        return direct;
    }
    let by_id = extract_json_string_field(body, "timezoneId");
    if by_id.is_some() {
        return by_id;
    }
    extract_json_string_field(body, "ianaTimeZoneId")
}

/// Why a lookup failed.
#[derive(Debug, Clone, Copy, PartialEq, Eq, Structural)]
pub enum LookupError {
    /// The request could not be made or its answer not be read.
    Transport,
    /// The service answered with a status other than success.
    HttpStatus(u16),
    /// The answer is no text.
    InvalidBody,
    /// The worker is gone.
    Disconnected,
}

/// Judge an answer by its status and the bytes of its body.
pub fn lookup_outcome(status: u16, body: &[u8]) -> (r: Result<Option<String>, LookupError>)
    ensures
        r is Ok <==> 200 <= status < 300 && valid_utf8(body@),
        r matches Err(e) ==> e == if 200 <= status < 300 {
            LookupError::InvalidBody
        } else {
            LookupError::HttpStatus(status)
        },
        r matches Ok(zone) ==> {
            &&& zone is Some <==> zone_in_body(decode_utf8(body@)) is Some
            &&& zone matches Some(name) ==> zone_in_body(decode_utf8(body@)) == Some(name@)
        },
{
    if status < 200 || status >= 300 {
        return Err(LookupError::HttpStatus(status));
    }
    match text::utf8_text(body) {
        Some(body) => Ok(timezone_from_body(body)),
        None => Err(LookupError::InvalidBody),
    }
}

/// A service that tells the time zone of a position.
#[derive(Debug, Clone, Copy, PartialEq, Eq, Structural)]
pub enum Provider {
    /// Asked first.
    OpenMeteo,
    /// Asked if the first names no time zone.
    GeoNames,
}

/// Decide which service to ask next; `None` means that the outcome stands.
pub fn next_provider(
    asked: Provider,
    outcome: &Result<Option<String>, LookupError>,
) -> (r: Option<Provider>)
    ensures
        r == if asked == Provider::OpenMeteo && *outcome matches Ok(None) {
            Some(Provider::GeoNames)
        } else {
            None
        },
{
    match (asked, outcome) {
        (Provider::OpenMeteo, Ok(None)) => Some(Provider::GeoNames),
        _ => None,
    }
}

/// The address of the question that a service is asked.
pub open spec fn url_text(provider: Provider, lat: Seq<char>, lon: Seq<char>) -> Seq<char> {
    match provider {
        Provider::OpenMeteo => "https://api.open-meteo.com/v1/forecast?latitude="@ + lat
            + "&longitude="@ + lon + "&current=temperature_2m&timezone=auto"@,
        Provider::GeoNames => "https://secure.geonames.org/timezoneJSON?lat="@ + lat + "&lng="@
            + lon + "&username=demo"@,
    }
}

/// Write the address of the question that a service is asked. Latitude and longitude
/// are given in decimal degrees.
pub fn lookup_url(provider: Provider, lat: &str, lon: &str) -> (r: String)
    ensures
        r@ == url_text(provider, lat@, lon@),
{
    match provider {
        Provider::OpenMeteo => {
            let mut url = "https://api.open-meteo.com/v1/forecast?latitude=".to_owned();
            url.append(lat);
            url.append("&longitude=");
            url.append(lon);
            url.append("&current=temperature_2m&timezone=auto");
            url
        },
        Provider::GeoNames => {
            let mut url = "https://secure.geonames.org/timezoneJSON?lat=".to_owned();
            url.append(lat);
            url.append("&lng=");
            url.append(lon);
            url.append("&username=demo");
            url
        },
    }
}

/// Find the time between two lookups.
pub fn lookup_interval_us(tz_initialized: bool) -> (r: i64)
    ensures
        r == if tz_initialized {
            TZ_LOOKUP_REFRESH_US
        } else {
            TZ_LOOKUP_RETRY_US
        },
{
    if tz_initialized {
        TZ_LOOKUP_REFRESH_US
    } else {
        TZ_LOOKUP_RETRY_US
    }
}

/// What has come back from the worker.
#[derive(Debug)]
pub enum WorkerReply {
    /// Nothing yet.
    Waiting,
    /// The outcome of a lookup.
    Done(Result<Option<String>, LookupError>),
    /// The worker is gone.
    Gone,
}

/// The worker that asks the services, as the main loop sees it.
#[derive(Debug, Clone, Copy, PartialEq, Eq, Structural)]
pub struct TimezoneWorker {
    /// Whether a lookup is under way.
    pub pending: bool,
    /// When the last lookup was asked for; 0 if none was.
    pub last_lookup_us: i64,
}

impl TimezoneWorker {
    /// Whether the time for another lookup has come.
    pub open spec fn is_due(self, tz_initialized: bool, now_us: i64) -> bool {
        self.last_lookup_us == 0 || now_us - self.last_lookup_us >= if tz_initialized {
            TZ_LOOKUP_REFRESH_US
        } else {
            TZ_LOOKUP_RETRY_US
        }
    }

    /// A worker that was asked for nothing yet.
    pub fn spawn() -> (r: Self)
        ensures
            r == (TimezoneWorker { pending: false, last_lookup_us: 0 }),
    {
        TimezoneWorker { pending: false, last_lookup_us: 0 }
    }

    /// Tell whether a lookup is under way.
    pub fn is_pending(&self) -> (r: bool)
        ensures
            r == self.pending,
    {
        self.pending
    }

    /// Tell whether to ask for a lookup now: the time has come and none is under way.
    pub fn should_request(&self, tz_initialized: bool, now_us: i64) -> (r: bool)
        ensures
            r == (self.is_due(tz_initialized, now_us) && !self.pending),
    {
        let interval_us: i64 = lookup_interval_us(tz_initialized);
        let due: bool = self.last_lookup_us == 0 || now_us as i128 - self.last_lookup_us as i128
            >= interval_us as i128;
        due && !self.pending
    }

    /// Record that a lookup was asked for; `sent` tells whether the worker took it.
    /// Nothing changes while another is under way. Tells whether it is under way now.
    pub fn try_request(&mut self, sent: bool, now_us: i64) -> (r: bool)
        ensures
            r == (sent && !old(self).pending),
            *final(self) == if r {
                TimezoneWorker { pending: true, last_lookup_us: now_us }
            } else {
                *old(self)
            },
    {
        if self.pending || !sent {
            return false;
        }
        self.pending = true;
        self.last_lookup_us = now_us;
        true
    }

    /// Take what has come back from the worker. A lookup ends with its outcome, or
    /// with an error if the worker is gone.
    pub fn poll(&mut self, reply: WorkerReply) -> (r: Option<Result<Option<String>, LookupError>>)
        ensures
            final(self).last_lookup_us == old(self).last_lookup_us,
            reply is Waiting ==> r is None && final(self).pending == old(self).pending,
            reply matches WorkerReply::Done(outcome) ==> r == Some(outcome)
                && !final(self).pending,
            reply is Gone ==> r == Some(
                Err::<Option<String>, LookupError>(LookupError::Disconnected),
            ) && !final(self).pending,
    {
        match reply {
            WorkerReply::Waiting => None,
            WorkerReply::Done(outcome) => {
                self.pending = false;
                Some(outcome)
            },
            WorkerReply::Gone => {
                self.pending = false;
                Some(Err(LookupError::Disconnected))
            },
        }
    }
}

/// What a finished lookup did.
#[derive(Debug, Clone, Copy, PartialEq, Eq, Structural)]
pub enum LookupEffect {
    /// It failed.
    Failed,
    /// It named no time zone.
    Nameless,
    /// The name is not known.
    UnknownName,
    /// It named the time zone that was set already.
    Confirmed,
    /// It set another time zone, which is to be kept across restarts.
    Changed,
}

/// The time zone, and whether it is known by a lookup or from before a restart.
pub struct TimezoneState {
    /// The time zone in use.
    pub zones: ZoneSettings,
    /// Whether a lookup, now or before a restart, has set it.
    pub initialized: bool,
    /// Its name.
    pub current_name: Option<String>,
}

/// The name in an optional string.
pub open spec fn name_of(name: Option<String>) -> Option<Seq<char>> {
    match name {
        Some(name) => Some(name@),
        None => None,
    }
}

/// Whether an optional string holds a name.
fn is_named(name: &Option<String>, wanted: &str) -> (r: bool)
    ensures
        r == (name_of(*name) == Some(wanted@)),
{
    match name {
        Some(name) => {
            let a = text::chars_of(name.as_str());
            let b = text::chars_of(wanted);
            text::same(a.as_slice(), b.as_slice())
        },
        None => false,
    }
}

/// The time zone name that is left from before a restart: the one in flash, or else
/// the one on the card.
pub open spec fn cached_name(nvs: Option<String>, sd: Option<String>) -> Option<Seq<char>> {
    if nvs is Some {
        name_of(nvs)
    } else {
        name_of(sd)
    }
}

impl TimezoneState {
    /// Whether a time zone was set under this name.
    pub open spec fn has_set(self, name: Seq<char>) -> bool {
        &&& self.initialized
        &&& name_of(self.zones.runtime) == Some(name)
        &&& name_of(self.current_name) == Some(name)
    }

    /// Start with the name that is left from before a restart. A name that is not
    /// known does not count.
    pub fn load(fallback: Option<String>, nvs: Option<String>, sd: Option<String>) -> (r: Self)
        ensures
            r.zones.fallback == fallback,
            match cached_name(nvs, sd) {
                Some(name) if calendar::zone_is_known(name) => r.has_set(name),
                _ => !r.initialized && r.zones.runtime is None && r.current_name is None,
            },
    {
        let mut zones = ZoneSettings::new(fallback);
        let cached = if nvs.is_some() {
            nvs
        } else {
            sd
        };
        if let Some(name) = cached {
            if gps::set_runtime_timezone(&mut zones, name.as_str()) {
                return TimezoneState { zones, initialized: true, current_name: Some(name) };
            }
        }
        TimezoneState { zones, initialized: false, current_name: None }
    }

    /// Set the offset from UTC at start-up by the time of the real-time clock.
    pub fn boot_snapshot(&self, boot_utc: Option<i64>) -> (r: GpsSnapshot)
        ensures
            r.tz_offset_hours == match boot_utc {
                Some(utc) => self.offset_hours(utc as int),
                None => 0,
            },
            r.local_date@ == Seq::<char>::empty(),
            r.local_time@ == Seq::<char>::empty(),
            r.utc_unix_seconds is None,
            r.lat_bits == 0,
            r.lon_bits == 0,
            !r.fix,
            r.sats == 0,
            r.altitude_bits is None,
    {
        let mut snapshot = GpsSnapshot::default();
        if let Some(utc) = boot_utc {
            snapshot.tz_offset_hours = gps::tz_offset_hours_at_unix(&self.zones, utc);
        }
        snapshot
    }

    /// Whole hours by which the time zone in use is ahead of UTC at an instant.
    pub open spec fn offset_hours(self, unix: int) -> int {
        match self.zones.active() {
            Some(name) if calendar::in_calendar(unix) => gps::whole_hours(
                calendar::zone_offset(name, unix),
            ),
            _ => 0,
        }
    }

    /// What the outcome of a lookup does.
    pub open spec fn effect_of(self, result: Result<Option<String>, LookupError>) -> LookupEffect {
        match result {
            Err(_) => LookupEffect::Failed,
            Ok(None) => LookupEffect::Nameless,
            Ok(Some(name)) => if !calendar::zone_is_known(name@) {
                LookupEffect::UnknownName
            } else if name_of(self.current_name) == Some(name@) {
                LookupEffect::Confirmed
            } else {
                LookupEffect::Changed
            },
        }
    }

    /// Take the outcome of a lookup. Only a known name changes anything.
    pub fn apply_timezone_lookup_result(
        &mut self,
        result: Result<Option<String>, LookupError>,
    ) -> (r: LookupEffect)
        ensures
            final(self).zones.fallback == old(self).zones.fallback,
            r == old(self).effect_of(result),
            match result {
                Ok(Some(name)) if calendar::zone_is_known(name@) => final(self).has_set(name@),
                _ => *final(self) == *old(self),
            },
    {
        match result {
            Err(_) => LookupEffect::Failed,
            Ok(None) => LookupEffect::Nameless,
            Ok(Some(name)) => {
                if !gps::set_runtime_timezone(&mut self.zones, name.as_str()) {
                    return LookupEffect::UnknownName;
                }
                let confirmed: bool = is_named(&self.current_name, name.as_str());
                self.initialized = true;
                self.current_name = Some(name);
                if confirmed {
                    LookupEffect::Confirmed
                } else {
                    LookupEffect::Changed
                }
            },
        }
    }

    /// Bring the offset from UTC up to date after a lookup, by the time of GPS or else
    /// that of the real-time clock. Tells whether it was.
    pub fn refresh_offset(&self, snapshot: &mut GpsSnapshot, rtc: RtcSnapshot) -> (r: bool)
        ensures
            r == (self.initialized && (old(snapshot).utc_unix_seconds is Some
                || rtc.utc_unix_seconds is Some)),
            *final(snapshot) == if r {
                GpsSnapshot {
                    tz_offset_hours: self.offset_hours(
                        if old(snapshot).utc_unix_seconds is Some {
                            old(snapshot).utc_unix_seconds->0 as int
                        } else {
                            rtc.utc_unix_seconds->0 as int
                        },
                    ) as i8,
                    ..*old(snapshot)
                }
            } else {
                *old(snapshot)
            },
    {
        if !self.initialized {
            return false;
        }
        let utc: i64 = match (snapshot.utc_unix_seconds, rtc.utc_unix_seconds) {
            (Some(utc), _) => utc,
            (None, Some(utc)) => utc,
            (None, None) => {
                return false;
            },
        };
        snapshot.tz_offset_hours = gps::tz_offset_hours_at_unix(&self.zones, utc);
        true
    }
}

/// A string field that stands first in a JSON object is read back as it was written,
/// whatever follows it, if it holds no double quote.
pub proof fn law_first_field_is_read_back(key: Seq<char>, value: Seq<char>, rest: Seq<char>)
    requires
        !value.contains('"'),
    ensures
        json_string_field(
            seq!['{'] + quoted(key) + seq![':'] + quoted(value) + rest,
            key,
        ) == Some(value),
{
    let json = seq!['{'] + quoted(key) + seq![':'] + quoted(value) + rest;
    let inner = quoted(key) + seq![':'] + quoted(value) + rest;
    assert(json.skip(1) == inner);
    assert(inner.take(quoted(key).len() as int) == quoted(key));
    assert(!text::begins_with(json, quoted(key))) by {
        assert(json.take(quoted(key).len() as int)[0] == '{');
        assert(quoted(key)[0] == '"');
    }
    let behind = inner.skip(quoted(key).len() as int);
    assert(behind[0] == ':');
    assert(text::trim_start(behind) == behind);
    let tail = behind.skip(1);
    assert(behind_key(inner, quoted(key)) == Some(tail));
    assert(behind_first_key(json, quoted(key)) == behind_first_key(inner, quoted(key)));
    assert(tail[0] == '"');
    assert(text::trim_start(tail) == tail);
    let body = tail.skip(1);
    assert forall|j: int| 0 <= j < value.len() implies body[j] != '"' by {
        assert(body[j] == value[j]);
        assert(value.contains(value[j]));
    }
    assert(body[value.len() as int] == '"');
    text::lemma_first_index(body, '"', value.len() as int);
    assert(body.take(value.len() as int) == value);
}

/// Where a key is missing, nothing is read, even if the same word occurs as a value.
pub proof fn law_missing_key_gives_nothing(json: Seq<char>, key: Seq<char>)
    requires
        forall|i: int|
            0 <= i <= json.len() ==> behind_key(#[trigger] json.skip(i), quoted(key)) is None,
    ensures
        json_string_field(json, key) is None,
    decreases json.len(),
{
    assert(json.skip(0) == json);
    if json.len() > 0 {
        let rest = json.skip(1);
        assert forall|i: int| 0 <= i <= rest.len() implies behind_key(
            #[trigger] rest.skip(i),
            quoted(key),
        ) is None by {
            assert(rest.skip(i) == json.skip(i + 1));
        }
        law_missing_key_gives_nothing(rest, key);
    }
}

/// A time zone is kept across restarts only when it changes: once it is set, a lookup
/// that names it again confirms it.
pub proof fn law_same_name_is_confirmed(state: TimezoneState, name: String)
    requires
        state.has_set(name@),
        calendar::zone_is_known(name@),
    ensures
        state.effect_of(Ok(Some(name))) == LookupEffect::Confirmed,
{
}

/// Right after a lookup was asked for, no other is due until the interval is over.
pub proof fn law_lookups_keep_their_distance(
    worker: TimezoneWorker,
    tz_initialized: bool,
    now_us: i64,
)
    requires
        worker.last_lookup_us != 0,
        0 <= now_us - worker.last_lookup_us < TZ_LOOKUP_RETRY_US,
    ensures
        !worker.is_due(tz_initialized, now_us),
{
}

/// What stands behind the question mark of an address, split at the ampersands.
pub open spec fn query_parts(url: Seq<char>) -> Seq<Seq<char>> {
    text::fields(url.skip(text::first_index(url, '?') + 1), '&')
}

/// The services are asked over an encrypted connection for the position in question:
/// latitude and longitude stand in the query under the names that each service knows.
pub proof fn law_position_is_asked_for(provider: Provider, lat: Seq<char>, lon: Seq<char>)
    requires
        !lat.contains('&'),
        !lon.contains('&'),
    ensures
        ({
            let url = url_text(provider, lat, lon);
            let parts = query_parts(url);
            &&& text::begins_with(url, "https://"@)
            &&& provider == Provider::OpenMeteo ==> parts.len() == 4 && parts[0] == "latitude="@
                + lat && parts[1] == "longitude="@ + lon && parts[3] == "timezone=auto"@
            &&& provider == Provider::GeoNames ==> parts.len() == 3 && parts[0] == "lat="@ + lat
                && parts[1] == "lng="@ + lon && parts[2] == "username=demo"@
        }),
{
    reveal_strlit("https://");
    match provider {
        Provider::OpenMeteo => {
            reveal_strlit("https://api.open-meteo.com/v1/forecast?latitude=");
            reveal_strlit("&longitude=");
            reveal_strlit("&current=temperature_2m&timezone=auto");
            reveal_strlit("latitude=");
            reveal_strlit("longitude=");
            reveal_strlit("current=temperature_2m");
            reveal_strlit("timezone=auto");
            let url = url_text(provider, lat, lon);
            let head = "https://api.open-meteo.com/v1/forecast?latitude="@;
            assert(url.take(8) =~= "https://"@);
            assert(url.take(head.len() as int) =~= head);
            lemma_question_mark(url, head, 38);
            let tail = url.skip(39);
            assert("&longitude="@ =~= seq!['&'] + "longitude="@);
            assert("&current=temperature_2m&timezone=auto"@ =~= seq!['&']
                + "current=temperature_2m"@ + seq!['&'] + "timezone=auto"@);
            let a = "latitude="@ + lat;
            let b = "longitude="@ + lon;
            let c = "current=temperature_2m"@;
            let d = "timezone=auto"@;
            assert(tail =~= a + seq!['&'] + b + seq!['&'] + c + seq!['&'] + d);
            lemma_no_ampersand("latitude="@, lat);
            lemma_no_ampersand("longitude="@, lon);
            text::law_one_piece(a, '&');
            text::law_one_piece(b, '&');
            text::law_one_piece(c, '&');
            text::law_one_piece(d, '&');
            text::law_pieces_add_up(a, b, '&');
            text::law_pieces_add_up(a + seq!['&'] + b, c, '&');
            text::law_pieces_add_up(a + seq!['&'] + b + seq!['&'] + c, d, '&');
        },
        Provider::GeoNames => {
            reveal_strlit("https://secure.geonames.org/timezoneJSON?lat=");
            reveal_strlit("&lng=");
            reveal_strlit("&username=demo");
            reveal_strlit("lat=");
            reveal_strlit("lng=");
            reveal_strlit("username=demo");
            let url = url_text(provider, lat, lon);
            let head = "https://secure.geonames.org/timezoneJSON?lat="@;
            assert(url.take(8) =~= "https://"@);
            assert(url.take(head.len() as int) =~= head);
            lemma_question_mark(url, head, 40);
            let tail = url.skip(41);
            assert("&lng="@ =~= seq!['&'] + "lng="@);
            assert("&username=demo"@ =~= seq!['&'] + "username=demo"@);
            let a = "lat="@ + lat;
            let b = "lng="@ + lon;
            let c = "username=demo"@;
            assert(tail =~= a + seq!['&'] + b + seq!['&'] + c);
            lemma_no_ampersand("lat="@, lat);
            lemma_no_ampersand("lng="@, lon);
            text::law_one_piece(a, '&');
            text::law_one_piece(b, '&');
            text::law_one_piece(c, '&');
            text::law_pieces_add_up(a, b, '&');
            text::law_pieces_add_up(a + seq!['&'] + b, c, '&');
        },
    }
}

/// The first question mark of an address whose beginning has one.
proof fn lemma_question_mark(url: Seq<char>, head: Seq<char>, at: int)
    requires
        0 <= at < head.len() <= url.len(),
        url.take(head.len() as int) == head,
        head[at] == '?',
        forall|i: int| 0 <= i < at ==> head[i] != '?',
    ensures
        text::first_index(url, '?') == at,
{
    assert forall|i: int| 0 <= i < at implies url[i] != '?' by {
        assert(url[i] == head[i]);
    }
    assert(url[at] == head[at]);
    text::lemma_first_index(url, '?', at);
}

/// Two texts without ampersands make one without.
proof fn lemma_no_ampersand(a: Seq<char>, b: Seq<char>)
    requires
        !a.contains('&'),
        !b.contains('&'),
    ensures
        !(a + b).contains('&'),
{
    let s = a + b;
    assert forall|i: int| 0 <= i < s.len() implies s[i] != '&' by {
        if i < a.len() {
            assert(s[i] == a[i] && a.contains(a[i]));
        } else {
            assert(s[i] == b[i - a.len()] && b.contains(b[i - a.len()]));
        }
    }
}

/// The name in an answer is looked for under `timezone`, then under `timezoneId` and then
/// under `ianaTimeZoneId`: the first of them that has a string counts.
pub proof fn law_name_is_found_under_any_key(body: Seq<char>)
    ensures
        ({
            let a = json_string_field(
                body,
                seq!['t', 'i', 'm', 'e', 'z', 'o', 'n', 'e'],
            );
            let b = json_string_field(
                body,
                seq!['t', 'i', 'm', 'e', 'z', 'o', 'n', 'e', 'I', 'd'],
            );
            let c = json_string_field(
                body,
                seq!['i', 'a', 'n', 'a', 'T', 'i', 'm', 'e', 'Z', 'o', 'n', 'e', 'I', 'd'],
            );
            &&& a is Some ==> zone_in_body(body) == a
            &&& a is None && b is Some ==> zone_in_body(body) == b
            &&& a is None && b is None ==> zone_in_body(body) == c
        }),
{
    reveal_strlit("timezone");
    reveal_strlit("timezoneId");
    reveal_strlit("ianaTimeZoneId");
    assert("timezone"@ =~= seq!['t', 'i', 'm', 'e', 'z', 'o', 'n', 'e']);
    assert("timezoneId"@ =~= seq!['t', 'i', 'm', 'e', 'z', 'o', 'n', 'e', 'I', 'd']);
    assert("ianaTimeZoneId"@ =~= seq![
        'i',
        'a',
        'n',
        'a',
        'T',
        'i',
        'm',
        'e',
        'Z',
        'o',
        'n',
        'e',
        'I',
        'd',
    ]);
}

/// The value of a key is the string behind the colon, whatever white space stands around
/// the colon, and a value that is no string is none.
pub proof fn law_value_behind_the_colon(
    key: Seq<char>,
    before: Seq<char>,
    after: Seq<char>,
    value: Seq<char>,
    rest: Seq<char>,
)
    requires
        forall|i: int| 0 <= i < before.len() ==> text::is_white_space(#[trigger] before[i]),
        forall|i: int| 0 <= i < after.len() ==> text::is_white_space(#[trigger] after[i]),
        !value.contains('"'),
    ensures
        json_string_field(
            quoted(key) + before + seq![':'] + (after + quoted(value) + rest),
            key,
        ) == Some(value),
        rest.len() > 0 && rest[0] != '"' && !text::is_white_space(rest[0]) ==> json_string_field(
            quoted(key) + before + seq![':'] + (after + rest),
            key,
        ) is None,
{
    let head = quoted(key);
    let n = head.len() as int;
    let tail = after + quoted(value) + rest;
    let json = head + before + seq![':'] + tail;
    assert(json.take(n) =~= head);
    assert(json.skip(n) =~= before + (seq![':'] + tail));
    lemma_leading_white_space(before, seq![':'] + tail);
    assert((seq![':'] + tail).skip(1) =~= tail);
    assert(behind_key(json, head) == Some(tail));
    assert(tail =~= after + (quoted(value) + rest));
    lemma_leading_white_space(after, quoted(value) + rest);
    let body = (quoted(value) + rest).skip(1);
    assert forall|j: int| 0 <= j < value.len() implies body[j] != '"' by {
        assert(body[j] == value[j] && value.contains(value[j]));
    }
    assert(body[value.len() as int] == '"');
    text::lemma_first_index(body, '"', value.len() as int);
    assert(body.take(value.len() as int) =~= value);
    if rest.len() > 0 && rest[0] != '"' && !text::is_white_space(rest[0]) {
        let other = head + before + seq![':'] + (after + rest);
        assert(other.take(n) =~= head);
        assert(other.skip(n) =~= before + (seq![':'] + (after + rest)));
        lemma_leading_white_space(before, seq![':'] + (after + rest));
        assert((seq![':'] + (after + rest)).skip(1) =~= after + rest);
        assert(behind_key(other, head) == Some(after + rest));
        lemma_leading_white_space(after, rest);
    }
}

/// Leading white space is cut off.
proof fn lemma_leading_white_space(front: Seq<char>, s: Seq<char>)
    requires
        forall|i: int| 0 <= i < front.len() ==> text::is_white_space(#[trigger] front[i]),
        s.len() > 0,
        !text::is_white_space(s[0]),
    ensures
        text::trim_start(front + s) == s,
    decreases front.len(),
{
    if front.len() == 0 {
        assert(front + s == s);
    } else {
        assert((front + s)[0] == front[0]);
        assert((front + s).skip(1) == front.skip(1) + s);
        assert forall|i: int| 0 <= i < front.skip(1).len() implies text::is_white_space(
            #[trigger] front.skip(1)[i],
        ) by {
            assert(front.skip(1)[i] == front[i + 1]);
        }
        lemma_leading_white_space(front.skip(1), s);
    }
}

/// A lookup is due at first, then every five minutes until a time zone is set, and every
/// six hours from then on.
pub proof fn law_when_lookups_are_due(worker: TimezoneWorker, now_us: i64)
    ensures
        worker.is_due(false, now_us) <==> worker.last_lookup_us == 0 || now_us
            - worker.last_lookup_us >= 5 * 60 * 1_000_000,
        worker.is_due(true, now_us) <==> worker.last_lookup_us == 0 || now_us
            - worker.last_lookup_us >= 6 * 3600 * 1_000_000,
{
}

/// What a lookup does depends on its outcome alone and on the name that is set: a failure,
/// no name and a name that is not known do nothing.
pub proof fn law_effects_of_lookups(state: TimezoneState, name: String, error: LookupError)
    ensures
        state.effect_of(Err(error)) == LookupEffect::Failed,
        state.effect_of(Ok(None)) == LookupEffect::Nameless,
        !calendar::zone_is_known(name@) ==> state.effect_of(Ok(Some(name)))
            == LookupEffect::UnknownName,
        calendar::zone_is_known(name@) ==> (state.effect_of(Ok(Some(name)))
            == LookupEffect::Confirmed <==> state.current_name is Some
            && state.current_name->0@ == name@),
        calendar::zone_is_known(name@) ==> (state.effect_of(Ok(Some(name)))
            == LookupEffect::Changed <==> !(state.current_name is Some && state.current_name->0@
            == name@)),
{
}

/// The name in flash goes before the one on the card.
pub proof fn law_flash_goes_before_the_card(nvs: Option<String>, sd: Option<String>)
    ensures
        nvs is Some ==> cached_name(nvs, sd) == Some(nvs->0@),
        nvs is None && sd is Some ==> cached_name(nvs, sd) == Some(sd->0@),
        nvs is None && sd is None ==> cached_name(nvs, sd) is None,
{
}

/// The hours of a time zone are those of its offset, rounded towards zero, and none while
/// no time zone is in use.
pub proof fn law_hours_of_the_zone(state: TimezoneState, unix: int)
    requires
        calendar::in_calendar(unix),
    ensures
        state.zones.active() is None ==> state.offset_hours(unix) == 0,
        state.zones.active() matches Some(name) ==> {
            let offset = calendar::zone_offset(name, unix);
            let hours = state.offset_hours(unix);
            &&& offset >= 0 ==> 3600 * hours <= offset < 3600 * (hours + 1)
            &&& offset < 0 ==> 3600 * (hours - 1) < offset <= 3600 * hours
        },
{
}

/// A key stands where the text begins with it and a colon follows behind white space.
/// The first such place in a text counts.
pub proof fn law_first_key_counts(c: char, s: Seq<char>, key: Seq<char>)
    requires
        key.len() > 0,
    ensures
        behind_key(s, key) is Some ==> text::begins_with(s, key) && text::begins_with(
            text::trim_start(s.skip(key.len() as int)),
            seq![':'],
        ),
        behind_key(s, key) is Some ==> behind_first_key(s, key) == behind_key(s, key),
        behind_key(seq![c] + s, key) is None ==> behind_first_key(seq![c] + s, key)
            == behind_first_key(s, key),
        behind_first_key(Seq::empty(), key) is None,
{
    let behind = text::trim_start(s.skip(key.len() as int));
    if behind_key(s, key) is Some {
        assert(behind.take(1) =~= seq![':']);
    }
    assert((seq![c] + s).skip(1) =~= s);
}

} // verus!
