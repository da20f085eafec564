//! The metadata cache: keys, freshness, and the counters a run reports.
use vstd::prelude::*;

use vstd::string::StringSliceAdditionalSpecFns;

use crate::config::{CacheTtl, Settings};
use crate::hashing::{blake3_hex, blake3_hex_digest};
use crate::text::{chars_of, ends_with, push_all, starts_with, string_of};

verus! {

/// How the cache was used during a run.
#[derive(Debug, Clone, Copy, PartialEq, Eq, Structural)]
pub struct CacheReport {
    pub enabled: bool,
    pub fresh_hits: usize,
    pub stale_hits: usize,
    pub misses: usize,
    pub refreshes: usize,
}

/// The cache of one run: where entries live and how they are read.
#[derive(Debug, Clone)]
pub struct CacheState {
    pub report: CacheReport,
    pub dir: String,
    pub enabled: bool,
    pub refresh: bool,
    pub ttl: CacheTtl,
}

/// What a cache read found.
#[derive(Debug)]
pub enum CacheLookup<T> {
    Fresh(T),
    Stale(T),
    Corrupt,
    Miss,
}

/// What reading and decoding an entry file gave.
#[derive(Debug)]
pub enum EntryRead<T> {
    /// The file does not exist.
    NotFound,
    /// The file exists but could not be read.
    Failed(String),
    /// The file does not hold a well-formed entry.
    Unparsable,
    /// The file holds an entry written at `fetched_at` (seconds since the epoch).
    Parsed { fetched_at: u64, value: T },
}

/// What identifies a cached lookup.
#[derive(Debug, Clone, Copy)]
pub struct CacheKeyParts<'a> {
    pub api_host: &'a str,
    pub owner: &'a str,
    pub repo: &'a str,
    pub lookup_mode: &'a str,
    pub auth_fingerprint: &'a str,
}

/// `n + 1`, or `n` when that does not fit.
pub open spec fn bump(n: usize) -> usize {
    if n < usize::MAX { (n + 1) as usize } else { n }
}

fn bump_exec(n: usize) -> (r: usize)
    ensures
        r == bump(n),
{
    if n < usize::MAX { n + 1 } else { n }
}

/// An entry written at `fetched_at` is fresh at time `now`.
pub open spec fn fresh_at(ttl: CacheTtl, fetched_at: u64, now: u64) -> bool {
    match ttl {
        CacheTtl::Never => true,
        CacheTtl::Seconds(t) => t != 0 && (if now >= fetched_at { now - fetched_at } else { 0 }) <= t,
    }
}

/// `dir` joined with the relative file name `name`, as `Path::join` gives it.
pub open spec fn join_path(dir: Seq<char>, name: Seq<char>) -> Seq<char> {
    if starts_with(name, "/"@) || dir.len() == 0 {
        name
    } else if ends_with(dir, "/"@) {
        dir + name
    } else {
        dir + "/"@ + name
    }
}

/// The bytes a cache key digests: the five parts, separated by NUL bytes.
pub open spec fn key_material(api_host: Seq<u8>, owner: Seq<u8>, repo: Seq<u8>, mode: Seq<u8>, auth: Seq<u8>) -> Seq<u8> {
    api_host + seq![0u8] + owner + seq![0u8] + repo + seq![0u8] + mode + seq![0u8] + auth
}

/// What reading an entry at time `now` gives a cache that is `enabled`, is
/// `refresh`ing or not, and keeps entries for `ttl`.
pub open spec fn lookup_at<T>(enabled: bool, refresh: bool, ttl: CacheTtl, read: EntryRead<T>, now: u64) -> Result<CacheLookup<T>, String> {
    if !enabled || refresh {
        Ok(CacheLookup::Miss)
    } else {
        match read {
            EntryRead::NotFound => Ok(CacheLookup::Miss),
            EntryRead::Failed(e) => Err(e),
            EntryRead::Unparsable => Ok(CacheLookup::Corrupt),
            EntryRead::Parsed { fetched_at, value } => if fresh_at(ttl, fetched_at, now) {
                Ok(CacheLookup::Fresh(value))
            } else {
                Ok(CacheLookup::Stale(value))
            },
        }
    }
}

/// The counters after such a read: a counted miss for a missing file, a
/// fresh or a stale hit for an entry, nothing else.
pub open spec fn report_after_read<T>(report: CacheReport, enabled: bool, refresh: bool, ttl: CacheTtl, read: EntryRead<T>, now: u64) -> CacheReport {
    if !enabled || refresh {
        report
    } else {
        match read {
            EntryRead::NotFound => CacheReport { misses: bump(report.misses), ..report },
            EntryRead::Parsed { fetched_at, value } => if fresh_at(ttl, fetched_at, now) {
                CacheReport { fresh_hits: bump(report.fresh_hits), ..report }
            } else {
                CacheReport { stale_hits: bump(report.stale_hits), ..report }
            },
            _ => report,
        }
    }
}

/// The counters after recording a write to a cache that is `enabled`: a
/// successful write counts as a refresh.
pub open spec fn report_after_write(report: CacheReport, enabled: bool, written_ok: bool) -> CacheReport {
    if enabled && written_ok {
        CacheReport { refreshes: bump(report.refreshes), ..report }
    } else {
        report
    }
}

impl CacheState {
    /// The cache of a run with `settings`; all counters start at zero.
    pub fn prepare(settings: &Settings) -> (cache: CacheState)
        ensures
            cache.report == (CacheReport {
                enabled: settings.cache_enabled,
                fresh_hits: 0,
                stale_hits: 0,
                misses: 0,
                refreshes: 0,
            }),
            cache.dir@ == settings.cache_dir@,
            cache.enabled == settings.cache_enabled,
            cache.refresh == settings.refresh_cache,
            cache.ttl == settings.cache_ttl,
    {
        CacheState {
            report: CacheReport {
                enabled: settings.cache_enabled,
                fresh_hits: 0,
                stale_hits: 0,
                misses: 0,
                refreshes: 0,
            },
            dir: settings.cache_dir.clone(),
            enabled: settings.cache_enabled,
            refresh: settings.refresh_cache,
            ttl: settings.cache_ttl,
        }
    }

    /// Entries are read only from an enabled cache that is not being refreshed.
    pub fn should_read(&self) -> (r: bool)
        ensures
            r == (self.enabled && !self.refresh),
    {
        self.enabled && !self.refresh
    }

    /// Classifies what reading the entry of a key found, and counts it.
    ///
    /// A disabled or refreshing cache misses without counting; a missing file
    /// is a counted miss; an unreadable file is an error; an unparsable one is
    /// corrupt; a parsed entry is a fresh or a stale hit.
    pub fn read_json<T>(&mut self, read: EntryRead<T>) -> (r: Result<CacheLookup<T>, String>)
        ensures
            final(self).dir == old(self).dir,
            final(self).enabled == old(self).enabled,
            final(self).refresh == old(self).refresh,
            final(self).ttl == old(self).ttl,
            final(self).report.enabled == old(self).report.enabled,
            final(self).report.refreshes == old(self).report.refreshes,
            !old(self).enabled || old(self).refresh ==> r is Ok && r->Ok_0 is Miss
                && final(self).report == old(self).report,
            old(self).enabled && !old(self).refresh ==> match read {
                EntryRead::NotFound => r is Ok && r->Ok_0 is Miss && final(self).report
                    == (CacheReport { misses: bump(old(self).report.misses), ..old(self).report }),
                EntryRead::Failed(e) => r == Err::<CacheLookup<T>, String>(e) && final(self).report
                    == old(self).report,
                EntryRead::Unparsable => r is Ok && r->Ok_0 is Corrupt && final(self).report
                    == old(self).report,
                EntryRead::Parsed { fetched_at, value } => r is Ok && match r->Ok_0 {
                    CacheLookup::Fresh(v) => v == value && final(self).report == (CacheReport {
                        fresh_hits: bump(old(self).report.fresh_hits),
                        ..old(self).report
                    }) && old(self).ttl != CacheTtl::Seconds(0)
                        && exists|now: u64| #[trigger] fresh_at(old(self).ttl, fetched_at, now),
                    CacheLookup::Stale(v) => v == value && final(self).report == (CacheReport {
                        stale_hits: bump(old(self).report.stale_hits),
                        ..old(self).report
                    }) && old(self).ttl != CacheTtl::Never
                        && exists|now: u64| !#[trigger] fresh_at(old(self).ttl, fetched_at, now),
                    _ => false,
                },
            },
    {
        let now = unix_now();
        self.read_json_at(read, now)
    }

    /// Classifies what reading the entry of a key found at time `now`, and
    /// counts it, as [`CacheState::read_json`] does at the time it reads.
    pub fn read_json_at<T>(&mut self, read: EntryRead<T>, now: u64) -> (r: Result<CacheLookup<T>, String>)
        ensures
            r == lookup_at(old(self).enabled, old(self).refresh, old(self).ttl, read, now),
            final(self).report == report_after_read(old(self).report, old(self).enabled, old(self).refresh, old(self).ttl, read, now),
            final(self).dir == old(self).dir,
            final(self).enabled == old(self).enabled,
            final(self).refresh == old(self).refresh,
            final(self).ttl == old(self).ttl,
    {
        if !self.enabled || self.refresh {
            return Ok(CacheLookup::Miss);
        }
        match read {
            EntryRead::NotFound => {
                self.report.misses = bump_exec(self.report.misses);
                Ok(CacheLookup::Miss)
            },
            EntryRead::Failed(error) => Err(error),
            EntryRead::Unparsable => Ok(CacheLookup::Corrupt),
            EntryRead::Parsed { fetched_at, value } => {
                if freshness(self.ttl, fetched_at, now) {
                    self.report.fresh_hits = bump_exec(self.report.fresh_hits);
                    Ok(CacheLookup::Fresh(value))
                } else {
                    self.report.stale_hits = bump_exec(self.report.stale_hits);
                    Ok(CacheLookup::Stale(value))
                }
            },
        }
    }

    /// Entries are written only to an enabled cache.
    pub fn should_write(&self) -> (r: bool)
        ensures
            r == self.enabled,
    {
        self.enabled
    }

    /// Records the outcome of writing an entry: a successful write to an
    /// enabled cache counts as a refresh.
    pub fn write_json(&mut self, written: Result<(), String>) -> (r: Result<(), String>)
        ensures
            final(self).dir == old(self).dir,
            final(self).enabled == old(self).enabled,
            final(self).refresh == old(self).refresh,
            final(self).ttl == old(self).ttl,
            final(self).report == report_after_write(old(self).report, old(self).enabled, written is Ok),
            !old(self).enabled ==> r is Ok && final(self).report == old(self).report,
            old(self).enabled && written is Ok ==> r is Ok,
            old(self).enabled && written is Err ==> r == written,
            old(self).enabled && written is Ok ==> final(self).report == (CacheReport {
                refreshes: bump(old(self).report.refreshes),
                ..old(self).report
            }),
            old(self).enabled && written is Err ==> final(self).report == old(self).report,
    {
        if !self.enabled {
            return Ok(());
        }
        match written {
            Ok(()) => {
                self.report.refreshes = bump_exec(self.report.refreshes);
                Ok(())
            },
            Err(e) => Err(e),
        }
    }

    /// The file that holds the entry of `key`: `<dir>/<key>.json`.
    pub fn entry_path(&self, key: &str) -> (path: String)
        ensures
            path@ == join_path(self.dir@, key@ + ".json"@),
    {
        let mut name = chars_of(key);
        push_all(&mut name, &chars_of(".json"));
        join_dir(self.dir.as_str(), string_of(&name).as_str())
    }

    /// Whether an entry written at `fetched_at` is fresh now.
    ///
    /// The clock decides: the result is the entry's freshness at the time
    /// read, whatever that time is.
    pub fn is_fresh(&self, fetched_at: u64) -> (r: bool)
        ensures
            exists|now: u64| r == #[trigger] fresh_at(self.ttl, fetched_at, now),
            self.ttl == CacheTtl::Never ==> r,
            self.ttl == CacheTtl::Seconds(0) ==> !r,
    {
        match self.ttl {
            CacheTtl::Never => {
                assert(fresh_at(self.ttl, fetched_at, 0u64));
                true
            },
            CacheTtl::Seconds(0) => {
                assert(!fresh_at(self.ttl, fetched_at, 0u64));
                false
            },
            CacheTtl::Seconds(_) => {
                let now = unix_now();
                let r = freshness(self.ttl, fetched_at, now);
                assert(r == fresh_at(self.ttl, fetched_at, now));
                r
            },
        }
    }
}

/// `name` in directory `dir`, as `Path::join` gives it: an absolute `name`
/// stands alone, and one separator goes between.
pub fn join_dir(dir: &str, name: &str) -> (path: String)
    ensures
        path@ == join_path(dir@, name@),
{
    let name = chars_of(name);
    let dir = chars_of(dir);
    let joined = if name.len() > 0 && name[0] == '/' {
        name
    } else if dir.len() == 0 {
        name
    } else if dir[dir.len() - 1] == '/' {
        let mut out = dir;
        push_all(&mut out, &name);
        out
    } else {
        let mut out = dir;
        out.push('/');
        push_all(&mut out, &name);
        out
    };
    proof {
        reveal_strlit("/");
        let slash = "/"@;
        assert(slash =~= seq!['/']);
        if name@.len() > 0 {
            if name@[0] == '/' {
                assert(name@.take(1) =~= slash);
            } else {
                assert(name@.take(1)[0] != slash[0]);
            }
        }
        let d = dir@;
        if d.len() > 0 {
            if d.last() == '/' {
                assert(d.skip(d.len() - 1) =~= slash);
            } else {
                assert(d.skip(d.len() - 1)[0] != slash[0]);
            }
        }
    }
    string_of(&joined)
}

/// Whether an entry written at `fetched_at` is fresh at time `now`: always
/// with a TTL of `never`, never with a TTL of zero, and otherwise when no
/// more than the TTL has passed.
pub fn freshness(ttl: CacheTtl, fetched_at: u64, now: u64) -> (r: bool)
    ensures
        r == fresh_at(ttl, fetched_at, now),
{
    match ttl {
        CacheTtl::Never => true,
        CacheTtl::Seconds(0) => false,
        CacheTtl::Seconds(t) => {
            let age = if now >= fetched_at { now - fetched_at } else { 0 };
            age <= t
        },
    }
}

fn push_bytes(out: &mut Vec<u8>, s: &str)
    ensures
        final(out)@ == old(out)@ + s.spec_bytes(),
{
    let bytes = s.as_bytes();
    let mut i: usize = 0;
    while i < bytes.len()
        invariant
            i <= bytes.len(),
            bytes@ == s.spec_bytes(),
            out@ == old(out)@ + bytes@.take(i as int),
        decreases bytes.len() - i,
    {
        out.push(bytes[i]);
        i = i + 1;
        assert(out@ =~= old(out)@ + bytes@.take(i as int));
    }
    assert(bytes@.take(bytes.len() as int) =~= bytes@);
}

/// The byte string holds no NUL byte.
pub open spec fn nul_free(s: Seq<u8>) -> bool {
    forall|i: int| 0 <= i < s.len() ==> s[i] != 0u8
}

/// `x`, a NUL, then `y`: with `x` free of NUL bytes, the first NUL tells
/// where `x` ends.
proof fn lemma_split_at_nul(x: Seq<u8>, y: Seq<u8>, x2: Seq<u8>, y2: Seq<u8>)
    requires
        nul_free(x),
        nul_free(x2),
        x + seq![0u8] + y == x2 + seq![0u8] + y2,
    ensures
        x == x2,
        y == y2,
{
    let s = x + seq![0u8] + y;
    let t = x2 + seq![0u8] + y2;
    if x.len() < x2.len() {
        assert(s[x.len() as int] == 0u8);
        assert(t[x.len() as int] == x2[x.len() as int]);
    } else if x2.len() < x.len() {
        assert(t[x2.len() as int] == 0u8);
        assert(s[x2.len() as int] == x[x2.len() as int]);
    }
    assert(x =~= s.take(x.len() as int));
    assert(x2 =~= t.take(x2.len() as int));
    assert(y =~= s.skip(x.len() as int + 1));
    assert(y2 =~= t.skip(x2.len() as int + 1));
}

/// Two lookups have the same key material only when they have the same API
/// host, owner, repository, lookup mode and authentication fingerprint, as
/// long as none of these holds a NUL byte: the digest that names a cache
/// entry is taken over material that tells the lookups apart.
pub proof fn law_key_material_separates_parts(
    api_host: Seq<u8>, owner: Seq<u8>, repo: Seq<u8>, mode: Seq<u8>, auth: Seq<u8>,
    api_host2: Seq<u8>, owner2: Seq<u8>, repo2: Seq<u8>, mode2: Seq<u8>, auth2: Seq<u8>,
)
    requires
        nul_free(api_host),
        nul_free(owner),
        nul_free(repo),
        nul_free(mode),
        nul_free(api_host2),
        nul_free(owner2),
        nul_free(repo2),
        nul_free(mode2),
        key_material(api_host, owner, repo, mode, auth) == key_material(api_host2, owner2, repo2, mode2, auth2),
    ensures
        api_host == api_host2,
        owner == owner2,
        repo == repo2,
        mode == mode2,
        auth == auth2,
{
    let r4 = mode + seq![0u8] + auth;
    let r3 = repo + seq![0u8] + r4;
    let r2 = owner + seq![0u8] + r3;
    let q4 = mode2 + seq![0u8] + auth2;
    let q3 = repo2 + seq![0u8] + q4;
    let q2 = owner2 + seq![0u8] + q3;
    assert(key_material(api_host, owner, repo, mode, auth) =~= api_host + seq![0u8] + r2);
    assert(key_material(api_host2, owner2, repo2, mode2, auth2) =~= api_host2 + seq![0u8] + q2);
    lemma_split_at_nul(api_host, r2, api_host2, q2);
    lemma_split_at_nul(owner, r3, owner2, q3);
    lemma_split_at_nul(repo, r4, repo2, q4);
    lemma_split_at_nul(mode, auth, mode2, auth2);
}

/// A cache entry reads back as it was written. Recording a successful write
/// counts one refresh in an enabled cache and nothing in a disabled one. An
/// entry written with `value` at time `written_at` and read at a time `now`
/// no more than the TTL later, by an enabled cache that is not refreshing
/// and whose TTL is not zero, is a fresh hit on `value`, counted as one; a
/// disabled cache reads nothing back.
pub proof fn law_written_entry_reads_back<T>(c: CacheState, written_at: u64, now: u64, value: T)
    requires
        c.ttl != CacheTtl::Seconds(0),
        written_at <= now,
        c.ttl matches CacheTtl::Seconds(t) ==> now - written_at <= t,
    ensures
        c.enabled ==> report_after_write(c.report, c.enabled, true) == (CacheReport {
            refreshes: bump(c.report.refreshes),
            ..c.report
        }),
        !c.enabled ==> report_after_write(c.report, c.enabled, true) == c.report,
        c.enabled && !c.refresh ==> lookup_at(c.enabled, c.refresh, c.ttl, EntryRead::Parsed { fetched_at: written_at, value }, now)
            == Ok::<CacheLookup<T>, String>(CacheLookup::Fresh(value)),
        c.enabled && !c.refresh ==> report_after_read(c.report, c.enabled, c.refresh, c.ttl, EntryRead::Parsed {
            fetched_at: written_at,
            value,
        }, now) == (CacheReport { fresh_hits: bump(c.report.fresh_hits), ..c.report }),
        !c.enabled ==> lookup_at(c.enabled, c.refresh, c.ttl, EntryRead::Parsed { fetched_at: written_at, value }, now)
            == Ok::<CacheLookup<T>, String>(CacheLookup::Miss),
{
}

/// The cache key of a lookup: the BLAKE3 digest of its parts.
pub fn cache_key(parts: CacheKeyParts<'_>) -> (key: String)
    ensures
        key@ == blake3_hex(key_material(
            parts.api_host.spec_bytes(),
            parts.owner.spec_bytes(),
            parts.repo.spec_bytes(),
            parts.lookup_mode.spec_bytes(),
            parts.auth_fingerprint.spec_bytes(),
        )),
{
    let mut data: Vec<u8> = Vec::new();
    push_bytes(&mut data, parts.api_host);
    data.push(0u8);
    push_bytes(&mut data, parts.owner);
    data.push(0u8);
    push_bytes(&mut data, parts.repo);
    data.push(0u8);
    push_bytes(&mut data, parts.lookup_mode);
    data.push(0u8);
    push_bytes(&mut data, parts.auth_fingerprint);
    assert(data@ =~= key_material(
        parts.api_host.spec_bytes(),
        parts.owner.spec_bytes(),
        parts.repo.spec_bytes(),
        parts.lookup_mode.spec_bytes(),
        parts.auth_fingerprint.spec_bytes(),
    ));
    blake3_hex_digest(data.as_slice())
}

/// The current time in seconds since the Unix epoch, or 0 before it.
#[verifier::external_body]
pub(crate) fn unix_now() -> u64 {
    std::time::SystemTime::now().duration_since(std::time::UNIX_EPOCH).map_or(0, |d| d.as_secs())
}

} // verus!
