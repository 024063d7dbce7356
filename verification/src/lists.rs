//! The releases that a sources list asks for, and the names under which
//! their files are kept.

use vstd::prelude::*;
use crate::error::{Error, ErrorView};
use crate::number::{decimal, decimal_string};
use crate::text::{join, join_with, views};

verus! {

#[verifier::external_type_specification]
#[verifier::external_body]
pub struct ExUrl(url::Url);

#[verifier::external_type_specification]
#[verifier::external_body]
pub struct ExUrlParseError(url::ParseError);

/// A URL, with the parts of it that this library reads.
#[derive(Debug, PartialEq, Eq, Hash, PartialOrd, Ord)]
pub struct Mirror {
    url: url::Url,
    serialization: String,
    scheme: String,
    username: String,
    host: Option<String>,
    port: Option<u16>,
    path_segments: Option<Vec<String>>,
}

/// A URL's serialization, scheme, user name, host, explicit port and path segments.
pub struct MirrorView {
    pub serialization: Seq<char>,
    pub scheme: Seq<char>,
    pub username: Seq<char>,
    pub host: Option<Seq<char>>,
    pub port: Option<u16>,
    pub path_segments: Option<Seq<Seq<char>>>,
}

impl View for Mirror {
    type V = MirrorView;

    closed spec fn view(&self) -> MirrorView {
        MirrorView {
            serialization: self.serialization@,
            scheme: self.scheme@,
            username: self.username@,
            host: match self.host {
                Some(h) => Some(h@),
                None => None,
            },
            port: self.port,
            path_segments: match self.path_segments {
                Some(p) => Some(views(p@)),
                None => None,
            },
        }
    }
}

/// The URL that `url::Url::parse` makes of `input`, if it accepts it.
pub uninterp spec fn url_parsed(input: Seq<char>) -> Option<MirrorView>;

/// The URL that `url::Url::join` makes of `input` against the URL serialized as `base`.
pub uninterp spec fn url_joined(base: Seq<char>, input: Seq<char>) -> Option<MirrorView>;

/// Trusted: `url::Url::parse`, with the parts read by `as_str`, `scheme`,
/// `username`, `host_str`, `port` and `path_segments`. The contract names
/// the outcome `url_parsed(input)`; what the URL standard makes of the text
/// is left to the crate.
#[verifier::external_body]
fn parse_url(input: &str) -> (r: Result<Mirror, url::ParseError>)
    ensures
        match r {
            Ok(m) => url_parsed(input@) == Some(m@),
            Err(_) => url_parsed(input@) is None,
        },
{
    let url = url::Url::parse(input)?;
    Ok(Mirror {
        serialization: url.as_str().to_string(),
        scheme: url.scheme().to_string(),
        username: url.username().to_string(),
        host: url.host_str().map(|h| h.to_string()),
        port: url.port(),
        path_segments: url.path_segments().map(|p| p.map(|s| s.to_string()).collect()),
        url,
    })
}

/// Trusted: `url::Url::join` on the URL a `Mirror` holds (a `Mirror` is only
/// made from a URL and its own parts, so the URL is the one `serialization`
/// spells), with the parts read as in `parse_url`. The contract names the
/// outcome `url_joined(base, input)`.
#[verifier::external_body]
fn join_url(base: &Mirror, input: &str) -> (r: Result<Mirror, url::ParseError>)
    ensures
        match r {
            Ok(m) => url_joined(base@.serialization, input@) == Some(m@),
            Err(_) => url_joined(base@.serialization, input@) is None,
        },
{
    let url = base.url.join(input)?;
    Ok(Mirror {
        serialization: url.as_str().to_string(),
        scheme: url.scheme().to_string(),
        username: url.username().to_string(),
        host: url.host_str().map(|h| h.to_string()),
        port: url.port(),
        path_segments: url.path_segments().map(|p| p.map(|s| s.to_string()).collect()),
        url,
    })
}

impl Mirror {
    /// Reads a URL.
    pub fn parse(input: &str) -> (r: Result<Mirror, Error>)
        ensures
            match url_parsed(input@) {
                Some(v) => r matches Ok(m) && m@ == v,
                None => r matches Err(e) && e@ == ErrorView::BadUrl(input@),
            },
    {
        match parse_url(input) {
            Ok(m) => Ok(m),
            Err(_) => Err(Error::BadUrl(String::from_str(input))),
        }
    }

    /// Resolves `input` against this URL.
    pub fn join(&self, input: &str) -> (r: Result<Mirror, Error>)
        ensures
            match url_joined(self@.serialization, input@) {
                Some(v) => r matches Ok(m) && m@ == v,
                None => r matches Err(e) && e@ == ErrorView::BadUrl(input@),
            },
    {
        match join_url(self, input) {
            Ok(m) => Ok(m),
            Err(_) => Err(Error::BadUrl(String::from_str(input))),
        }
    }

    /// The URL as text.
    pub fn as_str(&self) -> (r: &str)
        ensures
            r@ == self@.serialization,
    {
        self.serialization.as_str()
    }
}

/// A line of a sources list, as far as the releases need it.
#[derive(Clone, Debug, PartialEq, Eq)]
pub struct Entry {
    pub url: String,
    pub suite_codename: String,
}

/// A release of a mirror: the mirror's URL, and the code name (or suite) of the release.
#[derive(Debug, PartialEq, Eq, Hash, PartialOrd, Ord)]
pub struct RequestedRelease {
    pub mirror: Mirror,
    /// This can also be called "suite" in some places,
    /// e.g. "unstable" (suite) == "sid" (codename)
    pub codename: String,
}

pub open spec fn release_view(r: RequestedRelease) -> (MirrorView, Seq<char>) {
    (r.mirror@, r.codename@)
}

pub open spec fn release_views(v: Seq<RequestedRelease>) -> Seq<(MirrorView, Seq<char>)> {
    v.map_values(|r: RequestedRelease| release_view(r))
}

/// The URL of the release's `dists/<codename>/` directory: `dists/`, then
/// `<codename>/`, resolved in turn against the mirror.
pub open spec fn dists_spec(mirror: MirrorView, codename: Seq<char>) -> Result<MirrorView, ErrorView> {
    match url_joined(mirror.serialization, "dists/"@) {
        None => Err(ErrorView::BadUrl("dists/"@)),
        Some(d) => match url_joined(d.serialization, codename + "/"@) {
            None => Err(ErrorView::BadUrl(codename + "/"@)),
            Some(r) => Ok(r),
        },
    }
}

/// The file-name-safe name of a release: scheme, user name, host (empty
/// when none), port (0 when none), path segments joined by `_` (empty when
/// the URL has none) and code name, joined by `_`.
pub open spec fn filesystem_safe_spec(mirror: MirrorView, codename: Seq<char>) -> Seq<char> {
    let host = match mirror.host {
        Some(h) => h,
        None => seq![],
    };
    let port: nat = match mirror.port {
        Some(p) => p as nat,
        None => 0,
    };
    let path = match mirror.path_segments {
        Some(ps) => join_with(ps, "_"@),
        None => seq![],
    };
    mirror.scheme + "_"@ + mirror.username + "_"@ + host + "_"@ + decimal(port) + "_"@ + path + "_"@ + codename
}

impl RequestedRelease {
    /// The URL of the release's `dists/<codename>/` directory.
    pub fn dists(&self) -> (r: Result<Mirror, Error>)
        ensures
            match dists_spec(self.mirror@, self.codename@) {
                Ok(v) => r matches Ok(m) && m@ == v,
                Err(e) => r matches Err(x) && x@ == e,
            },
    {
        let d = match self.mirror.join("dists/") {
            Ok(d) => d,
            Err(e) => {
                return Err(e);
            },
        };
        let mut rel = self.codename.clone();
        rel.append("/");
        d.join(rel.as_str())
    }

    /// A name for the release's files that is safe in a file system.
    pub fn filesystem_safe(&self) -> (r: String)
        ensures
            r@ == filesystem_safe_spec(self.mirror@, self.codename@),
    {
        let u = &self.mirror;
        let underscore_path = match &u.path_segments {
            Some(parts) => join(parts, "_"),
            None => String::new(),
        };
        let port: u64 = match u.port {
            Some(p) => p as u64,
            None => 0,
        };
        let mut r = u.scheme.clone();
        r.append("_");
        r.append(u.username.as_str());
        r.append("_");
        match &u.host {
            Some(h) => r.append(h.as_str()),
            None => {},
        }
        r.append("_");
        r.append(decimal_string(port).as_str());
        r.append("_");
        r.append(underscore_path.as_str());
        r.append("_");
        r.append(self.codename.as_str());
        let ghost host = match u@.host {
            Some(h) => h,
            None => seq![],
        };
        assert(r@ =~= filesystem_safe_spec(self.mirror@, self.codename@));
        r
    }
}

/// Where a release's signed `InRelease` file is fetched from, and the name it is kept under.
pub open spec fn in_release_spec(mirror: MirrorView, codename: Seq<char>) -> Result<(MirrorView, Seq<char>), ErrorView> {
    match dists_spec(mirror, codename) {
        Err(e) => Err(e),
        Ok(d) => match url_joined(d.serialization, "InRelease"@) {
            None => Err(ErrorView::BadUrl("InRelease"@)),
            Some(u) => Ok((u, filesystem_safe_spec(mirror, codename) + "_InRelease"@)),
        },
    }
}

impl RequestedRelease {
    /// The URL of the release's `InRelease` file, and the name it is downloaded to.
    pub fn in_release_download(&self) -> (r: Result<(Mirror, String), Error>)
        ensures
            match in_release_spec(self.mirror@, self.codename@) {
                Ok((u, n)) => r matches Ok((m, name)) && m@ == u && name@ == n,
                Err(e) => r matches Err(x) && x@ == e,
            },
    {
        let d = match self.dists() {
            Ok(d) => d,
            Err(e) => {
                return Err(e);
            },
        };
        let url = match d.join("InRelease") {
            Ok(u) => u,
            Err(e) => {
                return Err(e);
            },
        };
        let mut name = self.filesystem_safe();
        name.append("_InRelease");
        Ok((url, name))
    }

    /// The name that the release's `InRelease` file is kept under once its signature is checked.
    pub fn verified_name(&self) -> (r: String)
        ensures
            r@ == filesystem_safe_spec(self.mirror@, self.codename@) + "_Verified"@,
    {
        let mut name = self.filesystem_safe();
        name.append("_Verified");
        name
    }
}

pub open spec fn download_views(v: Seq<(Mirror, String)>) -> Seq<(MirrorView, Seq<char>)> {
    v.map_values(|d: (Mirror, String)| (d.0@, d.1@))
}

/// The downloads for the releases, in order, or the first release whose URLs do not resolve.
pub open spec fn downloads_spec(rs: Seq<(MirrorView, Seq<char>)>) -> Result<Seq<(MirrorView, Seq<char>)>, ErrorView>
    decreases rs.len(),
{
    if rs.len() == 0 {
        Ok(seq![])
    } else {
        match downloads_spec(rs.drop_last()) {
            Err(e) => Err(e),
            Ok(t) => match in_release_spec(rs.last().0, rs.last().1) {
                Err(e) => Err(e),
                Ok(d) => Ok(t.push(d)),
            },
        }
    }
}

proof fn lemma_downloads_err_prefix(rs: Seq<(MirrorView, Seq<char>)>, j: int)
    requires
        0 <= j <= rs.len(),
        downloads_spec(rs.take(j)) is Err,
    ensures
        downloads_spec(rs) == downloads_spec(rs.take(j)),
    decreases rs.len() - j,
{
    if j < rs.len() {
        assert(rs.take(j + 1).drop_last() =~= rs.take(j));
        lemma_downloads_err_prefix(rs, j + 1);
    } else {
        assert(rs.take(j) =~= rs);
    }
}

/// What to download for the releases: for each, the URL of its `InRelease`
/// file and the name it is kept under.
pub fn download_plan(releases: &Vec<RequestedRelease>) -> (r: Result<Vec<(Mirror, String)>, Error>)
    ensures
        match downloads_spec(release_views(releases@)) {
            Ok(t) => r matches Ok(v) && download_views(v@) == t,
            Err(e) => r matches Err(x) && x@ == e,
        },
{
    let ghost rv = release_views(releases@);
    let mut out: Vec<(Mirror, String)> = Vec::new();
    let mut i: usize = 0;
    assert(rv.take(0) =~= Seq::<(MirrorView, Seq<char>)>::empty());
    assert(download_views(out@) =~= seq![]);
    while i < releases.len()
        invariant
            rv == release_views(releases@),
            i <= releases.len(),
            downloads_spec(rv.take(i as int)) == Ok::<Seq<(MirrorView, Seq<char>)>, ErrorView>(download_views(out@)),
        decreases releases.len() - i,
    {
        assert(rv.take(i + 1).drop_last() =~= rv.take(i as int));
        assert(rv.take(i + 1).last() == release_view(releases@[i as int]));
        match releases[i].in_release_download() {
            Ok(d) => {
                let ghost dv = (d.0@, d.1@);
                let ghost before = download_views(out@);
                out.push(d);
                assert(download_views(out@) =~= before.push(dv));
            },
            Err(e) => {
                proof {
                    lemma_downloads_err_prefix(rv, i + 1);
                }
                return Err(e);
            },
        }
        i += 1;
    }
    assert(rv.take(i as int) =~= rv);
    Ok(out)
}

/// Whether `t` already has a release with the mirror serialized as `s` and code name `c`.
pub open spec fn has_release(t: Seq<(MirrorView, Seq<char>)>, s: Seq<char>, c: Seq<char>) -> bool {
    exists|i: int| 0 <= i < t.len() && t[i].0.serialization == s && t[i].1 == c
}

/// The releases that the entries ask for, each once (the first time it is
/// asked for), or the first URL that does not parse.
pub open spec fn releases_spec(entries: Seq<(Seq<char>, Seq<char>)>) -> Result<Seq<(MirrorView, Seq<char>)>, ErrorView>
    decreases entries.len(),
{
    if entries.len() == 0 {
        Ok(seq![])
    } else {
        match releases_spec(entries.drop_last()) {
            Err(e) => Err(e),
            Ok(t) => {
                let e = entries.last();
                match url_parsed(e.0) {
                    None => Err(ErrorView::BadUrl(e.0)),
                    Some(m) => if has_release(t, m.serialization, e.1) {
                        Ok(t)
                    } else {
                        Ok(t.push((m, e.1)))
                    },
                }
            },
        }
    }
}

pub open spec fn entry_views(v: Seq<Entry>) -> Seq<(Seq<char>, Seq<char>)> {
    v.map_values(|e: Entry| (e.url@, e.suite_codename@))
}

proof fn lemma_releases_err_prefix(es: Seq<(Seq<char>, Seq<char>)>, j: int)
    requires
        0 <= j <= es.len(),
        releases_spec(es.take(j)) is Err,
    ensures
        releases_spec(es) == releases_spec(es.take(j)),
    decreases es.len() - j,
{
    if j < es.len() {
        assert(es.take(j + 1).drop_last() =~= es.take(j));
        lemma_releases_err_prefix(es, j + 1);
    } else {
        assert(es.take(j) =~= es);
    }
}

fn has_release_exec(ret: &Vec<RequestedRelease>, mirror: &Mirror, codename: &String) -> (r: bool)
    ensures
        r == has_release(release_views(ret@), mirror@.serialization, codename@),
{
    let mut k: usize = 0;
    while k < ret.len()
        invariant
            k <= ret.len(),
            forall|j: int| 0 <= j < k ==> !(ret@[j].mirror@.serialization == mirror@.serialization
                && ret@[j].codename@ == codename@),
        decreases ret.len() - k,
    {
        if ret[k].mirror.serialization == mirror.serialization && ret[k].codename == *codename {
            assert(release_views(ret@)[k as int].0.serialization == mirror@.serialization);
            return true;
        }
        k += 1;
    }
    proof {
        let t = release_views(ret@);
        if has_release(t, mirror@.serialization, codename@) {
            let j = choose|j: int| 0 <= j < t.len() && t[j].0.serialization == mirror@.serialization && t[j].1 == codename@;
            assert(ret@[j].mirror@.serialization == mirror@.serialization);
        }
    }
    false
}

/// The distinct releases that a sources list asks for, in the order first asked.
pub fn releases(sources_list: &Vec<Entry>) -> (r: Result<Vec<RequestedRelease>, Error>)
    ensures
        match releases_spec(entry_views(sources_list@)) {
            Ok(t) => r matches Ok(v) && release_views(v@) == t,
            Err(e) => r matches Err(x) && x@ == e,
        },
{
    let ghost ev = entry_views(sources_list@);
    let mut ret: Vec<RequestedRelease> = Vec::new();
    let mut i: usize = 0;
    assert(ev.take(0) =~= Seq::<(Seq<char>, Seq<char>)>::empty());
    assert(release_views(ret@) =~= seq![]);
    while i < sources_list.len()
        invariant
            ev == entry_views(sources_list@),
            i <= sources_list.len(),
            releases_spec(ev.take(i as int)) == Ok::<Seq<(MirrorView, Seq<char>)>, ErrorView>(release_views(ret@)),
        decreases sources_list.len() - i,
    {
        let entry = &sources_list[i];
        assert(ev.take(i + 1).drop_last() =~= ev.take(i as int));
        assert(ev.take(i + 1).last() == (entry.url@, entry.suite_codename@));
        let mirror = match Mirror::parse(entry.url.as_str()) {
            Ok(m) => m,
            Err(e) => {
                proof {
                    lemma_releases_err_prefix(ev, i + 1);
                }
                return Err(e);
            },
        };
        let found = has_release_exec(&ret, &mirror, &entry.suite_codename);
        let ghost before = release_views(ret@);
        if !found {
            let codename = entry.suite_codename.clone();
            let rr = RequestedRelease { mirror, codename };
            let ghost rv = release_view(rr);
            ret.push(rr);
            assert(release_views(ret@) =~= before.push(rv));
        }
        i += 1;
    }
    assert(ev.take(i as int) =~= ev);
    Ok(ret)
}


/// The releases that `releases` gives are distinct, each is asked for by
/// some entry, and every entry's release is among them.
pub proof fn law_releases_once_each(entries: Seq<(Seq<char>, Seq<char>)>)
    requires
        releases_spec(entries) is Ok,
    ensures
        ({
            let t = releases_spec(entries)->Ok_0;
            &&& forall|i: int, j: int|
                0 <= i < t.len() && 0 <= j < t.len() && i != j ==> !(t[i].0.serialization == t[j].0.serialization
                    && t[i].1 == t[j].1)
            &&& forall|k: int|
                0 <= k < entries.len() ==> url_parsed(#[trigger] entries[k].0) is Some && has_release(
                    t,
                    url_parsed(entries[k].0)->Some_0.serialization,
                    entries[k].1,
                )
            &&& forall|i: int|
                0 <= i < t.len() ==> exists|k: int|
                    0 <= k < entries.len() && url_parsed(entries[k].0) == Some(#[trigger] t[i].0) && entries[k].1 == t[i].1
        }),
    decreases entries.len(),
{
    if entries.len() > 0 {
        let init = entries.drop_last();
        law_releases_once_each(init);
        let t0 = releases_spec(init)->Ok_0;
        let t = releases_spec(entries)->Ok_0;
        let e = entries.last();
        let m = url_parsed(e.0)->Some_0;
        let n = entries.len() - 1;
        assert forall|k: int| 0 <= k < entries.len() implies url_parsed(#[trigger] entries[k].0) is Some && has_release(
            t,
            url_parsed(entries[k].0)->Some_0.serialization,
            entries[k].1,
        ) by {
            if k < n {
                assert(entries[k] == init[k]);
                let ms = url_parsed(init[k].0)->Some_0.serialization;
                assert(has_release(t0, ms, init[k].1));
                let j = choose|j: int| 0 <= j < t0.len() && t0[j].0.serialization == ms && t0[j].1 == init[k].1;
                assert(t[j] == t0[j]);
            } else {
                if !has_release(t0, m.serialization, e.1) {
                    assert(t[t.len() - 1] == (m, e.1));
                } else {
                    let j = choose|j: int| 0 <= j < t0.len() && t0[j].0.serialization == m.serialization && t0[j].1 == e.1;
                    assert(t[j] == t0[j]);
                }
            }
        }
        assert forall|i: int| 0 <= i < t.len() implies exists|k: int|
            0 <= k < entries.len() && url_parsed(entries[k].0) == Some(#[trigger] t[i].0) && entries[k].1 == t[i].1 by {
            if i < t0.len() {
                assert(t[i] == t0[i]);
                let k = choose|k: int| 0 <= k < init.len() && url_parsed(init[k].0) == Some(t0[i].0) && init[k].1 == t0[i].1;
                assert(entries[k] == init[k]);
            } else {
                assert(entries[n] == e);
            }
        }
    }
}

} // verus!
