use dsh_launcher::paths::{file_facts, vendor_paths};

#[test]
fn extension_is_in_lower_case() {
    let f = file_facts("dir/dsh.CMD", true);
    assert_eq!(f.path, "dir/dsh.CMD");
    assert!(f.exists);
    assert_eq!(f.ext, "cmd");
    assert_eq!(f.as_cmd, "dir/dsh.cmd");
    assert_eq!(f.as_bat, "dir/dsh.bat");
    assert_eq!(f.as_exe, "dir/dsh.exe");
}

#[test]
fn names_without_an_extension() {
    for path in ["dsh", "a.b/dsh", "/usr/bin/.dsh", "C:\\tools\\dsh"] {
        let f = file_facts(path, false);
        assert!(!f.exists);
        assert_eq!(f.ext, "");
        assert_eq!(f.as_cmd, format!("{}.cmd", path));
        assert_eq!(f.as_bat, format!("{}.bat", path));
        assert_eq!(f.as_exe, format!("{}.exe", path));
    }
    let f = file_facts("dsh.", true);
    assert_eq!(f.ext, "");
    assert_eq!(f.as_exe, "dsh.exe");
}

#[test]
fn only_the_last_extension_counts() {
    let f = file_facts("C:\\x.y\\dsh.tar.GZ", true);
    assert_eq!(f.ext, "gz");
    assert_eq!(f.as_cmd, "C:\\x.y\\dsh.tar.cmd");
    assert_eq!(file_facts("..a", true).ext, "a");
}

#[test]
fn siblings_have_their_extension() {
    for path in ["dsh", "a/dsh.tar", "a.b\\c.d", ".dsh", "dsh."] {
        let f = file_facts(path, true);
        assert_eq!(file_facts(&f.as_cmd, true).ext, "cmd");
        assert_eq!(file_facts(&f.as_bat, true).ext, "bat");
        assert_eq!(file_facts(&f.as_exe, true).ext, "exe");
    }
}

#[test]
fn extension_beyond_ascii_is_in_lower_case_too() {
    assert_eq!(file_facts("dsh.ÄB", true).ext, "äb");
}

#[test]
fn path_without_a_name_has_no_siblings() {
    let f = file_facts("..", false);
    assert_eq!(f.ext, "");
    assert_eq!(f.as_cmd, "..");
}

#[test]
fn vendor_directory_lies_beside_the_launcher() {
    let v = vendor_paths("/opt/launcher/");
    let sep = if v.dir.contains('\\') { "\\" } else { "/" };
    assert_eq!(v.dir, format!("/opt/launcher/vendor{}dsh", sep));
    let names: Vec<String> = ["dsh.exe", "dsh.cmd", "bin\\dsh.exe", "bin\\dsh.cmd"]
        .iter()
        .map(|n| format!("{}{}{}", v.dir, sep, n))
        .collect();
    assert_eq!(v.candidates, names);
    assert_eq!(v.main_js, format!("{}{}main.js", v.dir, sep));
}

#[test]
fn path_is_read_in_one_of_two_ways() {
    let f = file_facts("C:\\Users\\a.b\\npm\\dsh", true);
    if f.ext.is_empty() {
        assert_eq!(f.as_cmd, "C:\\Users\\a.b\\npm\\dsh.cmd");
    } else {
        assert_eq!(f.ext, "b\\npm\\dsh");
        assert_eq!(f.as_cmd, "C:\\Users\\a.cmd");
    }
    let f = file_facts("\\\\server\\share\\dsh.Exe", true);
    assert_eq!(f.ext, "exe");
    assert_eq!(f.as_bat, "\\\\server\\share\\dsh.bat");
    let f = file_facts("C:dsh", true);
    assert_eq!(f.ext, "");
    assert_eq!(f.as_exe, "C:dsh.exe");
}

#[test]
fn launcher_may_lie_on_a_share() {
    let v = vendor_paths("\\\\server\\share\\l");
    let sep = if v.dir.contains('/') { "/" } else { "\\" };
    assert_eq!(v.dir, format!("\\\\server\\share\\l{}vendor{}dsh", sep, sep));
    assert_eq!(v.main_js, format!("{}{}main.js", v.dir, sep));
    assert_eq!(vendor_paths("").main_js, format!("vendor{}dsh{}main.js", sep, sep));
}

#[test]
fn verbatim_path_has_its_extension() {
    let f = file_facts("\\\\?\\C:\\npm\\dsh.CMD", true);
    assert_eq!(f.ext, "cmd");
    assert_eq!(f.as_exe, "\\\\?\\C:\\npm\\dsh.exe");
    assert_eq!(file_facts("\\\\?\\UNC\\server\\share\\dsh.bat", true).ext, "bat");
    let v = vendor_paths("\\\\?\\C:\\l");
    for (i, c) in v.candidates.iter().enumerate() {
        assert!(c.starts_with("\\\\?\\C:\\l"));
        assert_eq!(file_facts(c, true).ext, if i % 2 == 0 { "exe" } else { "cmd" });
    }
}
