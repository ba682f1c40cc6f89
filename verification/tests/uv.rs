use prek::uv::{
    find_pypi_wheel, find_simple_wheel_link, github_archive_name, github_download_url,
    invalid_uv_source_warning, pip_requirement, pypi_json_url, uv_source_from_value,
    uv_version_from_output, uv_version_supported, wheel_data_dir, wheel_name,
    wheel_platform_tag, HostArch, HostOs, InstallSource, PyPiMirror, PypiFile, CUR_UV_VERSION,
};
use prek::version::Version;

#[test]
fn ensure_cur_uv_version_in_range() {
    let version = Version::parse(CUR_UV_VERSION).expect("Invalid CUR_UV_VERSION");
    assert!(
        uv_version_supported(&version),
        "CUR_UV_VERSION {CUR_UV_VERSION} does not satisfy the version requirement"
    );
}

#[test]
fn uv_versions_accepted() {
    assert!(uv_version_supported(&Version::parse("0.7.0").unwrap()));
    assert!(uv_version_supported(&Version::parse("0.9.99").unwrap()));
    assert!(!uv_version_supported(&Version::parse("0.6.17").unwrap()));
    assert!(!uv_version_supported(&Version::parse("0.10.0").unwrap()));
}

#[test]
fn uv_version_output() {
    let v = uv_version_from_output("uv 0.9.18 (0cee76417 2025-12-16)\n").unwrap();
    assert_eq!((v.major(), v.minor(), v.patch()), (0, 9, 18));
    assert_eq!(uv_version_from_output("uv").unwrap_err(), "Invalid version output format");
    assert!(uv_version_from_output("uv not-a-version").is_err());
}

#[test]
fn platform_tags() {
    assert_eq!(wheel_platform_tag(HostOs::Linux, HostArch::X86_64), Some("manylinux_2_17_x86_64.manylinux2014_x86_64"));
    assert_eq!(wheel_platform_tag(HostOs::Linux, HostArch::Armv6), Some("linux_armv6l"));
    assert_eq!(wheel_platform_tag(HostOs::Darwin, HostArch::Aarch64), Some("macosx_11_0_arm64"));
    assert_eq!(wheel_platform_tag(HostOs::Windows, HostArch::X86_32), Some("win32"));
    assert_eq!(wheel_platform_tag(HostOs::Darwin, HostArch::X86_32), None);
    assert_eq!(wheel_platform_tag(HostOs::Other, HostArch::X86_64), None);
}

#[test]
fn download_names() {
    assert_eq!(wheel_name("win_amd64"), "uv-0.9.18-py3-none-win_amd64.whl");
    assert_eq!(github_archive_name("x86_64-unknown-linux-gnu", false), "uv-x86_64-unknown-linux-gnu.tar.gz");
    assert_eq!(github_archive_name("x86_64-pc-windows-msvc", true), "uv-x86_64-pc-windows-msvc.zip");
    assert_eq!(
        github_download_url("uv-a.zip"),
        "https://github.com/astral-sh/uv/releases/download/0.9.18/uv-a.zip"
    );
    assert_eq!(pypi_json_url(), "https://pypi.org/pypi/uv/0.9.18/json");
    assert_eq!(wheel_data_dir(), "uv-0.9.18.data");
    assert_eq!(pip_requirement(), "uv==0.9.18");
}

#[test]
fn mirrors() {
    let all = PyPiMirror::all();
    let urls: Vec<&str> = all.iter().map(|m| m.url()).collect();
    assert_eq!(
        urls,
        vec![
            "https://pypi.org/simple/",
            "https://pypi.tuna.tsinghua.edu.cn/simple/",
            "https://mirrors.aliyun.com/pypi/simple/",
            "https://mirrors.cloud.tencent.com/pypi/simple/"
        ]
    );
    assert_eq!(PyPiMirror::Custom("https://m/".to_string()).simple_url(), "https://m/uv/");
}

#[test]
fn uv_sources() {
    assert!(matches!(uv_source_from_value("github"), Some(InstallSource::GitHub)));
    assert!(matches!(uv_source_from_value("pypi"), Some(InstallSource::PyPi(PyPiMirror::Pypi))));
    assert!(matches!(uv_source_from_value("tuna"), Some(InstallSource::PyPi(PyPiMirror::Tuna))));
    assert!(matches!(uv_source_from_value("aliyun"), Some(InstallSource::PyPi(PyPiMirror::Aliyun))));
    assert!(matches!(uv_source_from_value("tencent"), Some(InstallSource::PyPi(PyPiMirror::Tencent))));
    assert!(matches!(uv_source_from_value("pip"), Some(InstallSource::Pip)));
    match uv_source_from_value("https://mirror/simple/") {
        Some(InstallSource::PyPi(PyPiMirror::Custom(u))) => assert_eq!(u, "https://mirror/simple/"),
        other => panic!("unexpected {other:?}"),
    }
    assert!(uv_source_from_value("ftp://x").is_none());
    assert!(uv_source_from_value("GitHub").is_none());
    assert_eq!(invalid_uv_source_warning("x"), "Invalid UV_SOURCE value: x");
}

#[test]
fn simple_api_links() {
    let wheel = "uv-0.9.18-py3-none-win_amd64.whl";
    let html = "<html>\n<a href=\"../../packages/a/uv-0.9.18-py3-none-win_amd64.whl#sha256=1\">uv-0.9.18-py3-none-win_amd64.whl</a>\n</html>\n";
    assert_eq!(
        find_simple_wheel_link(html, wheel, "https://m/simple/uv/").unwrap(),
        "https://m/simple/uv/../../packages/a/uv-0.9.18-py3-none-win_amd64.whl#sha256=1"
    );
    let html = "<a href=\"https://files/uv-0.9.18-py3-none-win_amd64.whl\">x</a>";
    assert_eq!(
        find_simple_wheel_link(html, wheel, "https://m/").unwrap(),
        "https://files/uv-0.9.18-py3-none-win_amd64.whl"
    );
    assert_eq!(
        find_simple_wheel_link("<a href=\"other.whl\">", wheel, "p").unwrap_err(),
        "Could not find wheel download link for uv-0.9.18-py3-none-win_amd64.whl in simple API response"
    );
    assert!(find_simple_wheel_link("uv-0.9.18-py3-none-win_amd64.whl no link", wheel, "p").is_err());
}

fn file(name: &str, kind: &str, yanked: Option<bool>, url: Option<&str>) -> PypiFile {
    PypiFile {
        filename: Some(name.to_string()),
        packagetype: Some(kind.to_string()),
        yanked,
        url: url.map(|u| u.to_string()),
    }
}

#[test]
fn pypi_wheels() {
    let wheel = "uv-0.9.18-py3-none-win_amd64.whl";
    let files = vec![
        file("uv-0.9.18.tar.gz", "sdist", None, Some("s")),
        file(wheel, "bdist_wheel", Some(true), Some("yanked")),
        file(wheel, "bdist_wheel", Some(false), Some("good")),
        file(wheel, "bdist_wheel", None, Some("later")),
    ];
    assert_eq!(find_pypi_wheel(Some(&files), wheel).unwrap(), "good");
    assert_eq!(find_pypi_wheel(None, wheel).unwrap_err(), "Invalid PyPI response: missing urls");
    let no_url = vec![file(wheel, "bdist_wheel", None, None)];
    assert_eq!(find_pypi_wheel(Some(&no_url), wheel).unwrap_err(), "Missing download URL in PyPI response");
    assert_eq!(
        find_pypi_wheel(Some(&vec![]), wheel).unwrap_err(),
        "Could not find wheel for uv-0.9.18-py3-none-win_amd64.whl in PyPI response"
    );
}
