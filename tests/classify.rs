use dumpcode::classify::{detect_shebang, detect_special_file, language_for_extension};

#[test]
fn extension_rs_is_rust() {
    assert_eq!(language_for_extension("rs", "fn main() {}"), "rust");
}

#[test]
fn extension_py_is_python() {
    assert_eq!(language_for_extension("py", "print(1)"), "python");
}

#[test]
fn env_node_shebang_is_javascript() {
    assert_eq!(language_for_extension("", "#!/usr/bin/env node\nconsole.log(1)\n"), "javascript");
}

#[test]
fn from_marker_is_dockerfile() {
    assert_eq!(language_for_extension("", "FROM ubuntu:22.04\nRUN true\n"), "dockerfile");
}

#[test]
fn unknown_extension_has_no_tag() {
    assert_eq!(language_for_extension("unknownxyz", "FROM ubuntu:22.04\n"), "");
}

#[test]
fn table_wins_over_shebang() {
    assert_eq!(language_for_extension("txt", "#!/bin/bash\n"), "text");
}

#[test]
fn unmapped_extension_reads_shebang() {
    assert_eq!(language_for_extension("cgi", "#!/usr/bin/perl -w\n"), "perl");
}

#[test]
fn java_home_is_properties() {
    assert_eq!(detect_special_file("JAVA_HOME=/opt/jdk\n"), "properties");
    assert_eq!(language_for_extension("", "export JAVA_HOME=/opt/jdk\n"), "properties");
}

#[test]
fn plain_content_has_no_tag() {
    assert_eq!(detect_special_file("hello\n"), "");
    assert_eq!(language_for_extension("", "hello\n"), "");
}

#[test]
fn shebang_forms() {
    assert_eq!(detect_shebang("#!/bin/bash\necho"), "bash");
    assert_eq!(detect_shebang("#!/usr/local/bin/python3"), "python");
    assert_eq!(detect_shebang("#! /usr/bin/env   ruby -w"), "ruby");
    assert_eq!(detect_shebang("#!/usr/bin/env nodejs"), "javascript");
    assert_eq!(detect_shebang("#!/bin/sh"), "bash");
    assert_eq!(detect_shebang("#!/usr/bin/php"), "php");
    assert_eq!(detect_shebang("#!/usr/bin/lua5"), "");
    assert_eq!(detect_shebang("#!/usr/bin/env lua"), "lua");
    assert_eq!(detect_shebang("#!/usr/bin/env Rscript"), "r");
    assert_eq!(detect_shebang("#!/usr/bin/env python"), "python");
}

#[test]
fn shebang_edge_cases() {
    // no name after env: the path form reads "env"
    assert_eq!(detect_shebang("#!/usr/bin/env"), "");
    // the path form needs a second slash
    assert_eq!(detect_shebang("#!/bash"), "");
    // only the first line counts
    assert_eq!(detect_shebang("#!\n/usr/bin/env python"), "");
    // the last slash that a name follows
    assert_eq!(detect_shebang("#!/opt/node/bin/node --harmony"), "javascript");
    assert_eq!(detect_shebang("#!/opt/node/bin/node --harmony /x/"), "");
    assert_eq!(detect_shebang("echo"), "");
}

#[test]
fn more_table_entries() {
    assert_eq!(language_for_extension("hpp", ""), "cpp");
    assert_eq!(language_for_extension("yml", ""), "yaml");
    assert_eq!(language_for_extension("gql", ""), "graphql");
    assert_eq!(language_for_extension("org", ""), "org");
    assert_eq!(language_for_extension("tex", ""), "");
}

#[test]
fn non_ascii_letters_belong_to_the_name() {
    assert_eq!(detect_shebang("#!/a/sh\u{e9}"), "");
    assert_eq!(detect_shebang("#!/usr/bin/env python\u{e4}"), "");
    assert_eq!(language_for_extension("", "#!/usr/bin/env node\u{301}\n"), "");
    assert_eq!(detect_shebang("#!/usr/bin/env node\u{2014}x"), "javascript");
}
