//! The UI asset bundle: a gzipped tar of files served to dashboard
//! clients. Unpacking the archive is the outside crates' work; which
//! entries are kept, how lookups resolve and how the bundle is chosen are
//! decided and verified here.

use vstd::prelude::*;
use vstd::string::StrSliceExecFns;
use std::io::Read;
use flate2::read::GzDecoder;
use tar::Archive;
use crate::errors::RillError;

verus! {

/// What a gzipped tar stream unpacks to: its entries as (name, contents)
/// pairs in archive order, a non-text name as absent, or nothing when the
/// stream is corrupt. A function of the bytes alone.
pub uninterp spec fn unpacked_entries(data: Seq<u8>) -> Option<
    Seq<(Option<Seq<char>>, Seq<u8>)>,
>;

/// Relies on flate2's GzDecoder and tar's Archive: decompresses a gzipped
/// tar stream and lists its entries in archive order.
#[verifier::external_body]
fn unpack_archive(data: &Vec<u8>) -> (r: Result<Vec<(Option<String>, Vec<u8>)>, ()>)
    ensures
        match r {
            Ok(entries) => unpacked_entries(data@) == Some(entries.deep_view()),
            Err(()) => unpacked_entries(data@) is None,
        },
{
    let mut archive = Archive::new(GzDecoder::new(data.as_slice()));
    let mut files = Vec::new();
    let entries = archive.entries().map_err(|_| ())?;
    for entry in entries {
        let mut entry = entry.map_err(|_| ())?;
        let mut buf = Vec::new();
        entry.read_to_end(&mut buf).map_err(|_| ())?;
        let name = entry.path().ok().and_then(|p| p.to_str().map(|s| s.to_owned()));
        files.push((name, buf));
    }
    Ok(files)
}

/// Every entry with contents has a text name.
pub open spec fn assets_ok(es: Seq<(Option<Seq<char>>, Seq<u8>)>) -> bool {
    forall|i: int| 0 <= i < es.len() && (#[trigger] es[i]).1.len() > 0 ==> es[i].0 is Some
}

/// The files kept from an archive: the entries with contents, named, in
/// archive order.
pub open spec fn kept_assets(es: Seq<(Option<Seq<char>>, Seq<u8>)>) -> Seq<(Seq<char>, Seq<u8>)>
    decreases es.len(),
{
    if es.len() == 0 {
        Seq::empty()
    } else {
        kept_assets(es.drop_last()) + (if es.last().1.len() > 0 {
            seq![(es.last().0->0, es.last().1)]
        } else {
            Seq::empty()
        })
    }
}

/// The last file stored under a name, or -1: a later entry under the same
/// name wins.
pub open spec fn find_asset(files: Seq<(Seq<char>, Seq<u8>)>, name: Seq<char>) -> int
    decreases files.len(),
{
    if files.len() == 0 {
        -1
    } else if files.last().0 == name {
        files.len() - 1
    } else {
        find_asset(files.drop_last(), name)
    }
}

/// Character-wise equality of two texts.
fn text_eq(a: &str, b: &str) -> (r: bool)
    ensures
        r == (a@ == b@),
{
    let n: usize = a.unicode_len();
    if n != b.unicode_len() {
        proof {
            assert(a@.len() != b@.len());
        }
        return false;
    }
    let mut i: usize = 0;
    while i < n
        invariant
            0 <= i <= n,
            n == a@.len(),
            n == b@.len(),
            forall|j: int| 0 <= j < i ==> a@[j] == b@[j],
        decreases n - i,
    {
        if a.get_char(i) != b.get_char(i) {
            return false;
        }
        i += 1;
    }
    proof {
        assert(a@ =~= b@);
    }
    true
}

/// The unpacked UI bundle.
pub struct Assets {
    files: Vec<(String, Vec<u8>)>,
}

impl Assets {
    /// The stored files, in archive order.
    pub closed spec fn files_v(&self) -> Seq<(Seq<char>, Seq<u8>)> {
        self.files.deep_view()
    }

    /// Unpacks a gzipped tar bundle: every named entry with contents is
    /// kept; an entry with contents but no text name, or a corrupt
    /// stream, fails the whole bundle.
    pub fn parse(assets: &Vec<u8>) -> (r: Result<Assets, RillError>)
        ensures
            match r {
                Ok(a) => {
                    &&& unpacked_entries(assets@) matches Some(es) && assets_ok(es)
                        && a.files_v() == kept_assets(es)
                },
                Err(e) => {
                    &&& e == RillError::AssetFetch
                    &&& (unpacked_entries(assets@) is None || (unpacked_entries(assets@)
                        matches Some(es) && !assets_ok(es)))
                },
            },
    {
        let entries = match unpack_archive(assets) {
            Ok(es) => es,
            Err(()) => {
                return Err(RillError::AssetFetch);
            },
        };
        let ghost es = entries.deep_view();
        let mut files: Vec<(String, Vec<u8>)> = Vec::new();
        let n: usize = entries.len();
        let mut i: usize = 0;
        while i < n
            invariant
                0 <= i <= n,
                n == entries@.len(),
                es == entries.deep_view(),
                unpacked_entries(assets@) == Some(es),
                files.deep_view() =~= kept_assets(es.take(i as int)),
                forall|j: int| 0 <= j < i && (#[trigger] es[j]).1.len() > 0 ==> es[j].0 is Some,
            decreases n - i,
        {
            proof {
                assert(es.take(i as int + 1).drop_last() =~= es.take(i as int));
                assert(es.take(i as int + 1).last() == es[i as int]);
                assert(es[i as int] == entries@[i as int].deep_view());
            }
            let pair = &entries[i];
            if pair.1.len() > 0 {
                match &pair.0 {
                    Some(name) => {
                        let ghost prev = files.deep_view();
                        let data = pair.1.clone();
                        proof {
                            assert forall|j: int| 0 <= j < data@.len() implies data@[j] == pair.1@[
                                j
                            ] by {
                                assert(cloned::<u8>(pair.1@[j], data@[j]));
                            }
                            assert(data@ =~= pair.1@);
                            assert(data.deep_view() =~= pair.1.deep_view());
                            assert(pair.1.deep_view() =~= pair.1@);
                        }
                        let ghost prev_raw = files@;
                        let cloned_name = name.clone();
                        files.push((cloned_name, data));
                        proof {
                            assert forall|j: int| 0 <= j < files.deep_view().len() implies
                                #[trigger] files.deep_view()[j] == prev.push((name@, pair.1@))[
                                j
                            ] by {
                                if j < prev_raw.len() {
                                    assert(files@[j] == prev_raw[j]);
                                    assert(prev[j] == prev_raw[j].deep_view());
                                } else {
                                    assert(files@[j].0@ == name@);
                                    assert(files@[j].1.deep_view() =~= pair.1@);
                                }
                            }
                            assert(files.deep_view() =~= prev.push((name@, pair.1@)));
                            assert(es[i as int].0 == Some(name@) && es[i as int].1 == pair.1@);
                            assert(files.deep_view() =~= kept_assets(es.take(i as int + 1)));
                        }
                    },
                    None => {
                        proof {
                            assert(es[i as int].1.len() > 0 && es[i as int].0 is None);
                            assert((i as int) < es.len());
                            assert(!assets_ok(es));
                        }
                        return Err(RillError::AssetFetch);
                    },
                }
            } else {
                proof {
                    assert(es[i as int].1.len() == 0);
                    assert(files.deep_view() =~= kept_assets(es.take(i as int + 1)));
                }
            }
            i += 1;
        }
        proof {
            assert(es.take(n as int) =~= es);
        }
        Ok(Assets { files })
    }

    /// The contents stored under a path, the latest archive entry winning,
    /// if the bundle holds the path at all.
    pub fn get(&self, path: &str) -> (r: Option<&Vec<u8>>)
        ensures
            r is Some <==> find_asset(self.files_v(), path@) >= 0,
            r matches Some(v) ==> v@ == self.files_v()[find_asset(self.files_v(), path@)].1,
    {
        let n: usize = self.files.len();
        proof {
            assert(self.files_v().take(n as int) =~= self.files_v());
        }
        let mut i: usize = n;
        while i > 0
            invariant
                0 <= i <= n,
                n == self.files@.len(),
                find_asset(self.files_v(), path@) == find_asset(
                    self.files_v().take(i as int),
                    path@,
                ),
            decreases i,
        {
            i = i - 1;
            proof {
                assert(self.files_v().take(i as int + 1).last() == self.files_v()[i as int]);
                assert(self.files_v().take(i as int + 1).drop_last() =~= self.files_v().take(
                    i as int,
                ));
                assert(self.files_v()[i as int] == (self.files@[i as int].0@, self.files@[
                    i as int
                ].1@));
            }
            if text_eq(self.files[i].0.as_str(), path) {
                proof {
                    assert(find_asset(self.files_v(), path@) == i as int);
                }
                return Some(&self.files[i].1);
            }
        }
        proof {
            assert(self.files_v().take(0) =~= Seq::<(Seq<char>, Seq<u8>)>::empty());
        }
        None
    }

    /// How many files the bundle holds.
    pub fn len(&self) -> (r: usize)
        ensures
            r == self.files_v().len(),
    {
        self.files.len()
    }
}

/// Where the UI bundle lives while the server runs.
pub enum AssetsMode {
    /// Nothing resolved yet.
    Loading,
    /// Serve files straight from a local directory.
    Local { dir: String },
    /// Serve from an unpacked bundle.
    Packed { assets: Assets },
    /// The last fetch failed; a retry is scheduled.
    Failed { reason: String },
}

/// What the asset initialisation decides to do.
pub enum AssetsPlan {
    /// Fetch the bundle from this address.
    FetchUrl { url: String },
    /// Read the bundle or directory at this filesystem path.
    ReadPath { path: String },
    /// Unpack the embedded bundle.
    ParseEmbedded,
    /// No source is configured; stay in `Loading`.
    Idle,
}

/// The text starts with the scheme prefix of a web address.
pub open spec fn has_http_prefix(s: Seq<char>) -> bool {
    s.len() >= 4 && s[0] == 'h' && s[1] == 't' && s[2] == 't' && s[3] == 'p'
}

/// Whether a configured override names a web address rather than a file.
pub fn looks_like_url(s: &String) -> (r: bool)
    ensures
        r == has_http_prefix(s@),
{
    if s.as_str().unicode_len() < 4 {
        return false;
    }
    let c0 = s.as_str().get_char(0);
    let c1 = s.as_str().get_char(1);
    let c2 = s.as_str().get_char(2);
    let c3 = s.as_str().get_char(3);
    c0 == 'h' && c1 == 't' && c2 == 't' && c3 == 'p'
}

/// Picks the asset source: an environment override wins, as an address
/// when it reads like one and as a filesystem path otherwise; then the
/// embedded bundle; then the configured address; else nothing.
pub fn choose_assets_source(env_path: Option<String>, has_embedded: bool, url: Option<String>) -> (
    r: AssetsPlan)
    ensures
        match env_path {
            Some(p) => {
                &&& has_http_prefix(p@) ==> r == (AssetsPlan::FetchUrl { url: p })
                &&& !has_http_prefix(p@) ==> r == (AssetsPlan::ReadPath { path: p })
            },
            None => {
                &&& has_embedded ==> r == AssetsPlan::ParseEmbedded
                &&& !has_embedded ==> (match url {
                    Some(u) => r == (AssetsPlan::FetchUrl { url: u }),
                    None => r == AssetsPlan::Idle,
                })
            },
        },
{
    match env_path {
        Some(p) => {
            if looks_like_url(&p) {
                AssetsPlan::FetchUrl { url: p }
            } else {
                AssetsPlan::ReadPath { path: p }
            }
        },
        None => {
            if has_embedded {
                AssetsPlan::ParseEmbedded
            } else {
                match url {
                    Some(u) => AssetsPlan::FetchUrl { url: u },
                    None => AssetsPlan::Idle,
                }
            }
        },
    }
}

/// What a filesystem path read resolves to.
pub enum ReadAssetsPlan {
    /// The path is a directory: serve from it directly.
    UseLocalDir,
    /// The path is a file: its bytes are a packed bundle.
    ParsePacked,
    /// Nothing exists there.
    Missing,
}

/// Classifies what was found at a configured asset path.
pub fn classify_asset_path(path_exists: bool, is_dir: bool) -> (r: ReadAssetsPlan)
    ensures
        !path_exists ==> r == ReadAssetsPlan::Missing,
        path_exists && is_dir ==> r == ReadAssetsPlan::UseLocalDir,
        path_exists && !is_dir ==> r == ReadAssetsPlan::ParsePacked,
{
    if !path_exists {
        ReadAssetsPlan::Missing
    } else if is_dir {
        ReadAssetsPlan::UseLocalDir
    } else {
        ReadAssetsPlan::ParsePacked
    }
}

/// How long to wait before refetching a failed bundle, in seconds.
pub const ASSET_RETRY_SECS: u64 = 5;

/// Settles a finished bundle fetch: success installs the pack; failure
/// records the reason and schedules one retry after the fixed delay.
pub fn on_fetch_result(result: Result<Assets, String>) -> (r: (AssetsMode, Option<u64>))
    ensures
        match result {
            Ok(a) => r.0 == (AssetsMode::Packed { assets: a }) && r.1 is None,
            Err(reason) => r.0 == (AssetsMode::Failed { reason }) && r.1 == Some(ASSET_RETRY_SECS),
        },
{
    match result {
        Ok(assets) => (AssetsMode::Packed { assets }, None),
        Err(reason) => (AssetsMode::Failed { reason }, Some(ASSET_RETRY_SECS)),
    }
}

} // verus!
