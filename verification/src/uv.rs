//! The `uv` that Python hooks use: which versions are accepted, where a
//! managed copy is downloaded from, and how the download is found.
use vstd::prelude::*;

use crate::text::{
    chars_of, concat2, concat3, contains_str, contains_text, lines, lines_of, occurs_at,
    occurs_at_exec, push_str, string_of, strs_view, words, words_of,
};
use crate::version::{semver_parse, semver_req_matches, Version};
use target_lexicon::{Architecture, ArmArchitecture, OperatingSystem, HOST};

verus! {

/// The version of `uv` that prek installs.
pub const CUR_UV_VERSION: &'static str = "0.9.18";

/// The versions of `uv` prek accepts.
pub const UV_VERSION_RANGE: &'static str = ">=0.7.0, <0.10.0";

/// Whether a `uv` of version `v` can be used.
pub fn uv_version_supported(v: &Version) -> (b: bool)
    ensures
        b == (semver_req_matches(UV_VERSION_RANGE@, v.text()) == Some(true)),
{
    match v.meets(UV_VERSION_RANGE) {
        Some(b) => b,
        None => false,
    }
}

/// The version `uv --version` reports (`uv 0.9.18 (...)`): its second word.
pub open spec fn reported_version(output: Seq<char>) -> Option<Seq<char>> {
    let w = words_of(output, false);
    if w.len() >= 2 {
        Some(w[1])
    } else {
        None
    }
}

/// The version of `uv` from what `uv --version` printed.
pub fn uv_version_from_output(output: &str) -> (r: Result<Version, String>)
    ensures
        match reported_version(output@) {
            None => r is Err && r->Err_0@ == "Invalid version output format"@,
            Some(t) => match r {
                Ok(v) => semver_parse(t) == Ok::<_, Seq<char>>(v.parts()) && v.text() == t,
                Err(e) => semver_parse(t) == Err::<(u64, u64, u64, Seq<char>, Seq<char>), _>(e@),
            },
        },
{
    let w = words(output, false);
    if w.len() < 2 {
        return Err("Invalid version output format".to_string());
    }
    proof {
        assert(crate::text::strs_view(w@)[1] == w@[1]@);
    }
    Version::parse(w[1].as_str())
}

/// The operating system of the machine prek runs on, as far as choosing a
/// `uv` wheel goes.
#[derive(Debug, Clone, Copy, PartialEq, Eq, Structural)]
pub enum HostOs {
    Linux,
    Darwin,
    Windows,
    Other,
}

/// The processor architecture of the machine, as far as choosing a `uv` wheel goes.
#[derive(Debug, Clone, Copy, PartialEq, Eq, Structural)]
pub enum HostArch {
    X86_64,
    Aarch64,
    Armv7,
    Armv6,
    X86_32,
    Powerpc64,
    Powerpc64le,
    S390x,
    Riscv64,
    Other,
}

/// The platform tag of the `uv` wheel for a machine, `None` when there is none.
pub open spec fn wheel_tag(os: HostOs, arch: HostArch) -> Option<Seq<char>> {
    match (os, arch) {
        (HostOs::Linux, HostArch::X86_64) => Some("manylinux_2_17_x86_64.manylinux2014_x86_64"@),
        (HostOs::Linux, HostArch::Aarch64) => Some(
            "manylinux_2_17_aarch64.manylinux2014_aarch64.musllinux_1_1_aarch64"@,
        ),
        (HostOs::Linux, HostArch::Armv7) => Some("manylinux_2_17_armv7l.manylinux2014_armv7l"@),
        (HostOs::Linux, HostArch::Armv6) => Some("linux_armv6l"@),
        (HostOs::Linux, HostArch::X86_32) => Some("manylinux_2_17_i686.manylinux2014_i686"@),
        (HostOs::Linux, HostArch::Powerpc64) => Some("manylinux_2_17_ppc64.manylinux2014_ppc64"@),
        (HostOs::Linux, HostArch::Powerpc64le) => Some(
            "manylinux_2_17_ppc64le.manylinux2014_ppc64le"@,
        ),
        (HostOs::Linux, HostArch::S390x) => Some("manylinux_2_17_s390x.manylinux2014_s390x"@),
        (HostOs::Linux, HostArch::Riscv64) => Some("manylinux_2_31_riscv64"@),
        (HostOs::Darwin, HostArch::X86_64) => Some("macosx_10_12_x86_64"@),
        (HostOs::Darwin, HostArch::Aarch64) => Some("macosx_11_0_arm64"@),
        (HostOs::Windows, HostArch::X86_64) => Some("win_amd64"@),
        (HostOs::Windows, HostArch::X86_32) => Some("win32"@),
        (HostOs::Windows, HostArch::Aarch64) => Some("win_arm64"@),
        _ => None,
    }
}

/// The platform tag of the `uv` wheel for a machine.
pub fn wheel_platform_tag(os: HostOs, arch: HostArch) -> (r: Option<&'static str>)
    ensures
        match r {
            Some(t) => wheel_tag(os, arch) == Some(t@),
            None => wheel_tag(os, arch) is None,
        },
{
    match (os, arch) {
        (HostOs::Linux, HostArch::X86_64) => Some("manylinux_2_17_x86_64.manylinux2014_x86_64"),
        (HostOs::Linux, HostArch::Aarch64) => Some(
            "manylinux_2_17_aarch64.manylinux2014_aarch64.musllinux_1_1_aarch64",
        ),
        (HostOs::Linux, HostArch::Armv7) => Some("manylinux_2_17_armv7l.manylinux2014_armv7l"),
        (HostOs::Linux, HostArch::Armv6) => Some("linux_armv6l"),
        (HostOs::Linux, HostArch::X86_32) => Some("manylinux_2_17_i686.manylinux2014_i686"),
        (HostOs::Linux, HostArch::Powerpc64) => Some("manylinux_2_17_ppc64.manylinux2014_ppc64"),
        (HostOs::Linux, HostArch::Powerpc64le) => Some(
            "manylinux_2_17_ppc64le.manylinux2014_ppc64le",
        ),
        (HostOs::Linux, HostArch::S390x) => Some("manylinux_2_17_s390x.manylinux2014_s390x"),
        (HostOs::Linux, HostArch::Riscv64) => Some("manylinux_2_31_riscv64"),
        (HostOs::Darwin, HostArch::X86_64) => Some("macosx_10_12_x86_64"),
        (HostOs::Darwin, HostArch::Aarch64) => Some("macosx_11_0_arm64"),
        (HostOs::Windows, HostArch::X86_64) => Some("win_amd64"),
        (HostOs::Windows, HostArch::X86_32) => Some("win32"),
        (HostOs::Windows, HostArch::Aarch64) => Some("win_arm64"),
        _ => None,
    }
}

/// The operating system of the machine prek was built for
/// (`target_lexicon::HOST`). Nothing is stated of it: it depends on the machine.
#[verifier::external_body]
fn host_os() -> HostOs {
    match HOST.operating_system {
        OperatingSystem::Linux => HostOs::Linux,
        OperatingSystem::Darwin(_) => HostOs::Darwin,
        OperatingSystem::Windows => HostOs::Windows,
        _ => HostOs::Other,
    }
}

/// The processor architecture of the machine prek was built for
/// (`target_lexicon::HOST`). Nothing is stated of it: it depends on the machine.
#[verifier::external_body]
fn host_arch() -> HostArch {
    match HOST.architecture {
        Architecture::X86_64 => HostArch::X86_64,
        Architecture::Aarch64(_) => HostArch::Aarch64,
        Architecture::Arm(ArmArchitecture::Armv7) => HostArch::Armv7,
        Architecture::Arm(ArmArchitecture::Armv6) => HostArch::Armv6,
        Architecture::X86_32(_) => HostArch::X86_32,
        Architecture::Powerpc64 => HostArch::Powerpc64,
        Architecture::Powerpc64le => HostArch::Powerpc64le,
        Architecture::S390x => HostArch::S390x,
        Architecture::Riscv64(_) => HostArch::Riscv64,
        _ => HostArch::Other,
    }
}

/// The target triple of the machine prek was built for, as text
/// (`target_lexicon::HOST`, displayed). Nothing is stated of it: it depends on the machine.
#[verifier::external_body]
pub fn host_triple() -> String {
    HOST.to_string()
}

/// The platform tag of the `uv` wheel for this machine; an error naming the
/// machine when no wheel is made for it.
pub fn get_wheel_platform_tag() -> (r: Result<String, String>)
    ensures
        match r {
            Ok(t) => exists|os: HostOs, arch: HostArch| wheel_tag(os, arch) == Some(t@),
            Err(m) => m@.len() >= 22 && m@.take(22) == "Unsupported platform: "@,
        },
{
    let os = host_os();
    let arch = host_arch();
    match wheel_platform_tag(os, arch) {
        Some(t) => Ok(t.to_string()),
        None => {
            let m = concat2("Unsupported platform: ", host_triple().as_str());
            proof {
                reveal_strlit("Unsupported platform: ");
                assert(m@.take(22) =~= "Unsupported platform: "@);
            }
            Err(m)
        },
    }
}

/// The file name of the `uv` wheel for the platform tag `tag`.
pub fn wheel_name(tag: &str) -> (r: String)
    ensures
        r@ == "uv-"@ + CUR_UV_VERSION@ + "-py3-none-"@ + tag@ + ".whl"@,
{
    let mut v: Vec<char> = Vec::new();
    push_str(&mut v, "uv-");
    push_str(&mut v, CUR_UV_VERSION);
    push_str(&mut v, "-py3-none-");
    push_str(&mut v, tag);
    push_str(&mut v, ".whl");
    string_of(v.as_slice())
}

/// The archive of `uv` on GitHub for the target `triple`: a zip on Windows,
/// a tarball elsewhere.
pub fn github_archive_name(triple: &str, windows: bool) -> (r: String)
    ensures
        r@ == "uv-"@ + triple@ + "."@ + (if windows {
            "zip"@
        } else {
            "tar.gz"@
        }),
{
    let ext = if windows {
        "zip"
    } else {
        "tar.gz"
    };
    let mut v: Vec<char> = Vec::new();
    push_str(&mut v, "uv-");
    push_str(&mut v, triple);
    push_str(&mut v, ".");
    push_str(&mut v, ext);
    string_of(v.as_slice())
}

/// Where the archive `archive` of the current `uv` release is downloaded from.
pub fn github_download_url(archive: &str) -> (r: String)
    ensures
        r@ == "https://github.com/astral-sh/uv/releases/download/"@ + CUR_UV_VERSION@ + "/"@
            + archive@,
{
    let mut v: Vec<char> = Vec::new();
    push_str(&mut v, "https://github.com/astral-sh/uv/releases/download/");
    push_str(&mut v, CUR_UV_VERSION);
    push_str(&mut v, "/");
    push_str(&mut v, archive);
    string_of(v.as_slice())
}

/// A package index that serves `uv` wheels.
#[derive(Debug)]
pub enum PyPiMirror {
    Pypi,
    Tuna,
    Aliyun,
    Tencent,
    Custom(String),
}

impl PyPiMirror {
    /// The base URL of the index's simple API.
    pub open spec fn base(&self) -> Seq<char> {
        match self {
            PyPiMirror::Pypi => "https://pypi.org/simple/"@,
            PyPiMirror::Tuna => "https://pypi.tuna.tsinghua.edu.cn/simple/"@,
            PyPiMirror::Aliyun => "https://mirrors.aliyun.com/pypi/simple/"@,
            PyPiMirror::Tencent => "https://mirrors.cloud.tencent.com/pypi/simple/"@,
            PyPiMirror::Custom(url) => url@,
        }
    }

    pub fn url(&self) -> (r: &str)
        ensures
            r@ == self.base(),
    {
        match self {
            PyPiMirror::Pypi => "https://pypi.org/simple/",
            PyPiMirror::Tuna => "https://pypi.tuna.tsinghua.edu.cn/simple/",
            PyPiMirror::Aliyun => "https://mirrors.aliyun.com/pypi/simple/",
            PyPiMirror::Tencent => "https://mirrors.cloud.tencent.com/pypi/simple/",
            PyPiMirror::Custom(url) => url.as_str(),
        }
    }

    /// The known indexes, in the order they are tried.
    pub fn all() -> (r: Vec<PyPiMirror>)
        ensures
            r@ == seq![PyPiMirror::Pypi, PyPiMirror::Tuna, PyPiMirror::Aliyun, PyPiMirror::Tencent],
    {
        vec![PyPiMirror::Pypi, PyPiMirror::Tuna, PyPiMirror::Aliyun, PyPiMirror::Tencent]
    }

    /// The page of the simple API that lists `uv`'s files.
    pub fn simple_url(&self) -> (r: String)
        ensures
            r@ == self.base() + "uv/"@,
    {
        concat2(self.url(), "uv/")
    }
}

/// Where a managed `uv` comes from.
#[derive(Debug)]
pub enum InstallSource {
    /// The GitHub releases of `uv`.
    GitHub,
    /// The wheel of `uv` on a package index.
    PyPi(PyPiMirror),
    /// `pip install uv`.
    Pip,
}

/// The source named by the value of `PREK_UV_SOURCE`: `github`, `pypi`,
/// `tuna`, `aliyun`, `tencent`, `pip`, or the URL of an index (anything that
/// starts with `http`). `None` for any other value.
pub open spec fn uv_source_spec(v: Seq<char>, r: Option<InstallSource>) -> bool {
    if v == "github"@ {
        r == Some(InstallSource::GitHub)
    } else if v == "pypi"@ {
        r == Some(InstallSource::PyPi(PyPiMirror::Pypi))
    } else if v == "tuna"@ {
        r == Some(InstallSource::PyPi(PyPiMirror::Tuna))
    } else if v == "aliyun"@ {
        r == Some(InstallSource::PyPi(PyPiMirror::Aliyun))
    } else if v == "tencent"@ {
        r == Some(InstallSource::PyPi(PyPiMirror::Tencent))
    } else if v == "pip"@ {
        r == Some(InstallSource::Pip)
    } else if v.len() >= 4 && v.take(4) == "http"@ {
        r matches Some(InstallSource::PyPi(PyPiMirror::Custom(u))) && u@ == v
    } else {
        r is None
    }
}

pub fn uv_source_from_value(value: &str) -> (r: Option<InstallSource>)
    ensures
        uv_source_spec(value@, r),
{
    proof {
        reveal_strlit("http");
    }
    if crate::text::str_eq(value, "github") {
        Some(InstallSource::GitHub)
    } else if crate::text::str_eq(value, "pypi") {
        Some(InstallSource::PyPi(PyPiMirror::Pypi))
    } else if crate::text::str_eq(value, "tuna") {
        Some(InstallSource::PyPi(PyPiMirror::Tuna))
    } else if crate::text::str_eq(value, "aliyun") {
        Some(InstallSource::PyPi(PyPiMirror::Aliyun))
    } else if crate::text::str_eq(value, "tencent") {
        Some(InstallSource::PyPi(PyPiMirror::Tencent))
    } else if crate::text::str_eq(value, "pip") {
        Some(InstallSource::Pip)
    } else if starts_with_text(value, "http") {
        Some(InstallSource::PyPi(PyPiMirror::Custom(value.to_string())))
    } else {
        None
    }
}

/// Whether `s` begins with `prefix`.
pub fn starts_with_text(s: &str, prefix: &str) -> (b: bool)
    ensures
        b == (prefix@.len() <= s@.len() && s@.take(prefix@.len() as int) == prefix@),
{
    let v = crate::text::chars_of(s);
    let p = crate::text::chars_of(prefix);
    if p.len() > v.len() {
        return false;
    }
    let mut i: usize = 0;
    while i < p.len()
        invariant
            i <= p@.len(),
            p@.len() <= v@.len(),
            v@ == s@,
            p@ == prefix@,
            forall|j: int| 0 <= j < i ==> v@[j] == p@[j],
        decreases p.len() - i,
    {
        if v[i] != p[i] {
            proof {
                assert(s@.take(prefix@.len() as int)[i as int] != prefix@[i as int]);
            }
            return false;
        }
        i = i + 1;
    }
    proof {
        assert(s@.take(prefix@.len() as int) =~= prefix@);
    }
    true
}

/// The warning for a value of `PREK_UV_SOURCE` that names no source.
pub fn invalid_uv_source_warning(value: &str) -> (r: String)
    ensures
        r@ == "Invalid UV_SOURCE value: "@ + value@,
{
    concat2("Invalid UV_SOURCE value: ", value)
}

/// Where `pat` first occurs in `s`.
#[verifier::opaque]
pub open spec fn first_occurrence(s: Seq<char>, pat: Seq<char>) -> Option<int> {
    if exists|i: int| occurs_at(s, pat, i) {
        Some(
            choose|i: int| occurs_at(s, pat, i) && forall|j: int| 0 <= j < i ==> !occurs_at(s, pat, j),
        )
    } else {
        None
    }
}

proof fn lemma_first_occurrence(s: Seq<char>, pat: Seq<char>, i: int)
    requires
        occurs_at(s, pat, i),
        forall|j: int| 0 <= j < i ==> !occurs_at(s, pat, j),
    ensures
        first_occurrence(s, pat) == Some(i),
{
    reveal(first_occurrence);
    let c = choose|c: int| occurs_at(s, pat, c) && forall|j: int| 0 <= j < c ==> !occurs_at(s, pat, j);
    assert(occurs_at(s, pat, c) && forall|j: int| 0 <= j < c ==> !occurs_at(s, pat, j));
    if c < i {
        assert(!occurs_at(s, pat, c));
    } else if c > i {
        assert(!occurs_at(s, pat, i));
    }
}

fn find_text(v: &Vec<char>, pat: &Vec<char>) -> (r: Option<usize>)
    ensures
        match r {
            Some(i) => first_occurrence(v@, pat@) == Some(i as int) && occurs_at(v@, pat@, i as int),
            None => first_occurrence(v@, pat@) is None,
        },
{
    let n = v.len();
    let mut i: usize = 0;
    while i < n
        invariant
            i <= n,
            n == v@.len(),
            forall|j: int| 0 <= j < i ==> !occurs_at(v@, pat@, j),
        decreases n - i,
    {
        if occurs_at_exec(v, pat, i) {
            proof {
                lemma_first_occurrence(v@, pat@, i as int);
            }
            return Some(i);
        }
        i = i + 1;
    }
    if occurs_at_exec(v, pat, n) {
        proof {
            lemma_first_occurrence(v@, pat@, n as int);
        }
        return Some(n);
    }
    proof {
        reveal(first_occurrence);
        assert forall|j: int| !occurs_at(v@, pat@, j) by {
            if 0 <= j && j + pat@.len() <= v@.len() && j != n {
                assert(j < n);
            }
        }
    }
    None
}

/// The first of the lines `ls` in which `pat` occurs.
pub open spec fn first_line_with(ls: Seq<Seq<char>>, pat: Seq<char>) -> Option<int> {
    if exists|k: int| 0 <= k < ls.len() && contains_text(#[trigger] ls[k], pat) {
        Some(
            choose|k: int|
                0 <= k < ls.len() && contains_text(ls[k], pat) && forall|j: int|
                    0 <= j < k ==> !contains_text(#[trigger] ls[j], pat),
        )
    } else {
        None
    }
}

proof fn lemma_first_line(ls: Seq<Seq<char>>, pat: Seq<char>, k: int)
    requires
        0 <= k < ls.len(),
        contains_text(ls[k], pat),
        forall|j: int| 0 <= j < k ==> !contains_text(#[trigger] ls[j], pat),
    ensures
        first_line_with(ls, pat) == Some(k),
{
    let c = choose|c: int|
        0 <= c < ls.len() && contains_text(ls[c], pat) && forall|j: int|
            0 <= j < c ==> !contains_text(#[trigger] ls[j], pat);
    assert(0 <= c < ls.len() && contains_text(ls[c], pat) && forall|j: int|
        0 <= j < c ==> !contains_text(#[trigger] ls[j], pat));
    if c < k {
        assert(!contains_text(ls[c], pat));
    } else if c > k {
        assert(!contains_text(ls[k], pat));
    }
}

/// The link in a line of a simple-API page: the text between the first
/// `href="` and the next `"`.
pub open spec fn link_in_line(l: Seq<char>) -> Option<Seq<char>> {
    match first_occurrence(l, "href=\""@) {
        None => None,
        Some(p) => {
            let rest = l.skip(p + 6);
            match first_occurrence(rest, "\""@) {
                None => None,
                Some(e) => Some(rest.take(e)),
            }
        },
    }
}

/// The link to the wheel `wheel` on a simple-API page: the link in the first
/// line that names the wheel.
pub open spec fn simple_wheel_path(html: Seq<char>, wheel: Seq<char>) -> Option<Seq<char>> {
    let ls = lines_of(html);
    match first_line_with(ls, wheel) {
        None => None,
        Some(k) => link_in_line(ls[k]),
    }
}

/// The URL of a link found on the simple-API page at `page`: the link itself
/// when it starts with `http`, else resolved against the page.
pub open spec fn resolved_link(page: Seq<char>, link: Seq<char>) -> Seq<char> {
    if link.len() >= 4 && link.take(4) == "http"@ {
        link
    } else {
        page + link
    }
}

fn chars_range(v: &Vec<char>, from: usize, to: usize) -> (r: Vec<char>)
    requires
        from <= to <= v@.len(),
    ensures
        r@ == v@.subrange(from as int, to as int),
{
    let mut out: Vec<char> = Vec::new();
    let mut q = from;
    while q < to
        invariant
            from <= q <= to,
            to <= v@.len(),
            out@ == v@.subrange(from as int, q as int),
        decreases to - q,
    {
        out.push(v[q]);
        proof {
            assert(out@ =~= v@.subrange(from as int, q + 1));
        }
        q = q + 1;
    }
    out
}

/// The link in one line of a simple-API page.
pub fn find_link_in_line(line: &str) -> (r: Option<String>)
    ensures
        match r {
            Some(t) => link_in_line(line@) == Some(t@),
            None => link_in_line(line@) is None,
        },
{
    proof {
        reveal_strlit("href=\"");
        reveal_strlit("\"");
    }
    let v = chars_of(line);
    let href = chars_of("href=\"");
    assert(href@.len() == 6);
    let p = match find_text(&v, &href) {
        Some(p) => p,
        None => return None,
    };
    assert(occurs_at(v@, href@, p as int));
    assert(p + 6 <= v.len());
    let rest = chars_range(&v, p + 6, v.len());
    proof {
        assert(rest@ =~= v@.skip(p + 6));
    }
    let quote = chars_of("\"");
    let e = match find_text(&rest, &quote) {
        Some(e) => e,
        None => return None,
    };
    let link = chars_range(&rest, 0, e);
    proof {
        assert(link@ =~= rest@.take(e as int));
    }
    Some(string_of(link.as_slice()))
}

/// The download URL of the wheel `wheel` from the simple-API page `html` found at `page`.
pub fn find_simple_wheel_link(html: &str, wheel: &str, page: &str) -> (r: Result<String, String>)
    ensures
        match simple_wheel_path(html@, wheel@) {
            Some(link) => r is Ok && r->Ok_0@ == resolved_link(page@, link),
            None => r is Err && r->Err_0@ == "Could not find wheel download link for "@ + wheel@
                + " in simple API response"@,
        },
{
    proof {
        reveal_strlit("http");
    }
    let not_found = concat3("Could not find wheel download link for ", wheel, " in simple API response");
    let ls = lines(html);
    let ghost lv = lines_of(html@);
    let mut k: usize = 0;
    let mut found = false;
    while k < ls.len() && !found
        invariant
            k <= ls@.len(),
            strs_view(ls@) == lv,
            lv == lines_of(html@),
            found ==> k < ls@.len() && contains_text(lv[k as int], wheel@),
            forall|j: int| 0 <= j < k ==> !contains_text(#[trigger] lv[j], wheel@),
        decreases ls@.len() - k + (if found {
            0int
        } else {
            1int
        }),
    {
        proof {
            assert(lv[k as int] == ls@[k as int]@);
        }
        if contains_str(ls[k].as_str(), wheel) {
            found = true;
        } else {
            k = k + 1;
        }
    }
    if !found {
        proof {
            assert(!exists|x: int| 0 <= x < lv.len() && contains_text(#[trigger] lv[x], wheel@));
        }
        return Err(not_found);
    }
    proof {
        assert(lv[k as int] == ls@[k as int]@);
        lemma_first_line(lv, wheel@, k as int);
    }
    let link_text = match find_link_in_line(ls[k].as_str()) {
        Some(t) => t,
        None => return Err(not_found),
    };
    if starts_with_text(link_text.as_str(), "http") {
        Ok(link_text)
    } else {
        Ok(concat2(page, link_text.as_str()))
    }
}

/// A file that the PyPI JSON API lists for a release, with the fields read
/// from it (each `None` when missing or of another type).
#[derive(Debug)]
pub struct PypiFile {
    pub filename: Option<String>,
    pub packagetype: Option<String>,
    pub yanked: Option<bool>,
    pub url: Option<String>,
}

/// The file is the wheel `wheel`, a binary wheel that was not yanked.
pub open spec fn is_wanted_wheel(f: PypiFile, wheel: Seq<char>) -> bool {
    &&& f.filename matches Some(n) && n@ == wheel
    &&& f.packagetype matches Some(t) && t@ == "bdist_wheel"@
    &&& f.yanked != Some(true)
}

/// The download URL of the wheel `wheel` among the files `fs` of a release:
/// that of the first matching file, or an error.
pub open spec fn pypi_wheel_result(fs: Seq<PypiFile>, wheel: Seq<char>, k: int, r: Result<String, String>) -> bool {
    if k < fs.len() {
        match fs[k].url {
            Some(u) => r is Ok && r->Ok_0@ == u@,
            None => r is Err && r->Err_0@ == "Missing download URL in PyPI response"@,
        }
    } else {
        r is Err && r->Err_0@ == "Could not find wheel for "@ + wheel + " in PyPI response"@
    }
}

/// The download URL of the wheel `wheel` among the files of a release on PyPI
/// (`None` when the response had no list of files): the URL of the first
/// matching file.
pub fn find_pypi_wheel(files: Option<&Vec<PypiFile>>, wheel: &str) -> (r: Result<String, String>)
    ensures
        match files {
            None => r is Err && r->Err_0@ == "Invalid PyPI response: missing urls"@,
            Some(fs) => exists|k: int|
                0 <= k <= fs@.len() && (k < fs@.len() ==> is_wanted_wheel(fs@[k], wheel@)) && (forall|j: int|
                    0 <= j < k ==> !is_wanted_wheel(#[trigger] fs@[j], wheel@)) && #[trigger] pypi_wheel_result(
                    fs@,
                    wheel@,
                    k,
                    r,
                ),
        },
{
    match files {
        None => Err("Invalid PyPI response: missing urls".to_string()),
        Some(fs) => find_in_files(fs, wheel),
    }
}

fn find_in_files(fs: &Vec<PypiFile>, wheel: &str) -> (r: Result<String, String>)
    ensures
        exists|k: int|
            0 <= k <= fs@.len() && (k < fs@.len() ==> is_wanted_wheel(fs@[k], wheel@)) && (forall|j: int|
                0 <= j < k ==> !is_wanted_wheel(#[trigger] fs@[j], wheel@)) && #[trigger] pypi_wheel_result(
                fs@,
                wheel@,
                k,
                r,
            ),
{
    let mut k: usize = 0;
    while k < fs.len()
        invariant
            k <= fs@.len(),
            forall|j: int| 0 <= j < k ==> !is_wanted_wheel(#[trigger] fs@[j], wheel@),
        decreases fs.len() - k,
    {
        let f = &fs[k];
        let name_ok = match &f.filename {
            Some(n) => crate::text::str_eq(n.as_str(), wheel),
            None => false,
        };
        let type_ok = match &f.packagetype {
            Some(t) => crate::text::str_eq(t.as_str(), "bdist_wheel"),
            None => false,
        };
        let not_yanked = match f.yanked {
            Some(y) => !y,
            None => true,
        };
        if name_ok && type_ok && not_yanked {
            let res = match &f.url {
                Some(u) => Ok(u.clone()),
                None => Err("Missing download URL in PyPI response".to_string()),
            };
            proof {
                assert(is_wanted_wheel(fs@[k as int], wheel@));
                assert(pypi_wheel_result(fs@, wheel@, k as int, res));
            }
            return res;
        }
        proof {
            assert(!is_wanted_wheel(fs@[k as int], wheel@));
        }
        k = k + 1;
    }
    let res = Err(concat3("Could not find wheel for ", wheel, " in PyPI response"));
    proof {
        assert(pypi_wheel_result(fs@, wheel@, fs@.len() as int, res));
    }
    res
}

/// The address of the PyPI JSON API for the current `uv` release.
pub fn pypi_json_url() -> (r: String)
    ensures
        r@ == "https://pypi.org/pypi/uv/"@ + CUR_UV_VERSION@ + "/json"@,
{
    concat3("https://pypi.org/pypi/uv/", CUR_UV_VERSION, "/json")
}

/// The directory of the wheel that holds the `uv` binary.
pub fn wheel_data_dir() -> (r: String)
    ensures
        r@ == "uv-"@ + CUR_UV_VERSION@ + ".data"@,
{
    concat3("uv-", CUR_UV_VERSION, ".data")
}

/// The requirement given to `pip install`.
pub fn pip_requirement() -> (r: String)
    ensures
        r@ == "uv=="@ + CUR_UV_VERSION@,
{
    concat2("uv==", CUR_UV_VERSION)
}


/// The wheel for each supported machine is the one built for its system and
/// processor; other machines have none.
pub proof fn wheel_tags_by_platform(os: HostOs, arch: HostArch)
    ensures
        wheel_tag(HostOs::Linux, HostArch::X86_64) == Some("manylinux_2_17_x86_64.manylinux2014_x86_64"@),
        wheel_tag(HostOs::Linux, HostArch::Aarch64) == Some(
            "manylinux_2_17_aarch64.manylinux2014_aarch64.musllinux_1_1_aarch64"@,
        ),
        wheel_tag(HostOs::Linux, HostArch::Armv7) == Some("manylinux_2_17_armv7l.manylinux2014_armv7l"@),
        wheel_tag(HostOs::Linux, HostArch::Armv6) == Some("linux_armv6l"@),
        wheel_tag(HostOs::Linux, HostArch::X86_32) == Some("manylinux_2_17_i686.manylinux2014_i686"@),
        wheel_tag(HostOs::Linux, HostArch::Powerpc64) == Some("manylinux_2_17_ppc64.manylinux2014_ppc64"@),
        wheel_tag(HostOs::Linux, HostArch::Powerpc64le) == Some(
            "manylinux_2_17_ppc64le.manylinux2014_ppc64le"@,
        ),
        wheel_tag(HostOs::Linux, HostArch::S390x) == Some("manylinux_2_17_s390x.manylinux2014_s390x"@),
        wheel_tag(HostOs::Linux, HostArch::Riscv64) == Some("manylinux_2_31_riscv64"@),
        wheel_tag(HostOs::Darwin, HostArch::X86_64) == Some("macosx_10_12_x86_64"@),
        wheel_tag(HostOs::Darwin, HostArch::Aarch64) == Some("macosx_11_0_arm64"@),
        wheel_tag(HostOs::Windows, HostArch::X86_64) == Some("win_amd64"@),
        wheel_tag(HostOs::Windows, HostArch::X86_32) == Some("win32"@),
        wheel_tag(HostOs::Windows, HostArch::Aarch64) == Some("win_arm64"@),
        os == HostOs::Other || arch == HostArch::Other ==> wheel_tag(os, arch) is None,
        os == HostOs::Darwin && arch != HostArch::X86_64 && arch != HostArch::Aarch64 ==> wheel_tag(os, arch) is None,
        os == HostOs::Windows && arch != HostArch::X86_64 && arch != HostArch::X86_32 && arch
            != HostArch::Aarch64 ==> wheel_tag(os, arch) is None,
{
}

} // verus!
