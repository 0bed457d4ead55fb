use yaml_front_matter::YamlFrontMatter;

const MARKDOWN: &'static str = r#"
---
title: "Installing The Rust Programming Language on Windows"
description: "A tutorial on installing the Rust Programming Language on Windows."
categories: [rust, tutorial, windows, install]
date: 2021-09-13T03:48:00
---

# Installing The Rust Programming Language on Windows

## Motivation

In the past days I´ve been using Unix based systems to do my software
development work, macOS and Ubuntu are both my main operative systems nowadays.

But Windows is getting closer as well, as I get more involved into systems
programming, I'm also getting into writing Rust crates which must be supported in
different platforms, such as macOS, Linux and Windows.

Currently I'm working on a crate called [local-ip-address](https://github.com/EstebanBorai/local-ip-address).

The main goal of this crate is to list system's network interfaces along
with related data such as interface name, interface family (AFINET or AFINET6 for instance),
IP address, subnet mask and any other relevant properties.

Given that every system has a particular way to gather network interfaces
details, I decided to install Windows in my PC as a dual-boot option along with Ubuntu.

This will give me first-class access to the popular Win32 API, which I'm using through [windows-rs](https://github.com/microsoft/windows-rs) crate.

After having Windows up and running, I'm also installing Rust on Windows and I'm documenting
it for future references.
"#;

const FRONT_MATTER: &'static str = r#"title: "Installing The Rust Programming Language on Windows"
description: "A tutorial on installing the Rust Programming Language on Windows."
categories: [rust, tutorial, windows, install]
date: 2021-09-13T03:48:00
"#;

const CONTENT: &'static str = r#"
# Installing The Rust Programming Language on Windows

## Motivation

In the past days I´ve been using Unix based systems to do my software
development work, macOS and Ubuntu are both my main operative systems nowadays.

But Windows is getting closer as well, as I get more involved into systems
programming, I'm also getting into writing Rust crates which must be supported in
different platforms, such as macOS, Linux and Windows.

Currently I'm working on a crate called [local-ip-address](https://github.com/EstebanBorai/local-ip-address).

The main goal of this crate is to list system's network interfaces along
with related data such as interface name, interface family (AFINET or AFINET6 for instance),
IP address, subnet mask and any other relevant properties.

Given that every system has a particular way to gather network interfaces
details, I decided to install Windows in my PC as a dual-boot option along with Ubuntu.

This will give me first-class access to the popular Win32 API, which I'm using through [windows-rs](https://github.com/microsoft/windows-rs) crate.

After having Windows up and running, I'm also installing Rust on Windows and I'm documenting
it for future references."#;

#[test]
fn retrieve_markdown_front_matter() {
    let (front_matter, _) = YamlFrontMatter::extract(MARKDOWN).unwrap();

    assert_eq!(front_matter, FRONT_MATTER);
}

#[test]
fn retrieve_markdown_content() {
    let (_, content) = YamlFrontMatter::extract(MARKDOWN).unwrap();

    assert_eq!(content, CONTENT);
}

#[test]
fn empty_input_yields_empty_parts() {
    let (front_matter, body) = YamlFrontMatter::extract("").unwrap();

    assert_eq!(front_matter, "");
    assert_eq!(body, "");
}

#[test]
fn no_delimiters_yields_empty_parts() {
    let (front_matter, body) = YamlFrontMatter::extract("just text\nmore text").unwrap();

    assert_eq!(front_matter, "");
    assert_eq!(body, "");
}

#[test]
fn lone_delimiter_accumulates_rest_and_drops_body() {
    let (front_matter, body) = YamlFrontMatter::extract("---\ntitle: 'T'\nmore text").unwrap();

    assert_eq!(front_matter, "title: 'T'\nmore text\n");
    assert_eq!(body, "");
}

#[test]
fn well_formed_document_round_trips() {
    let (front_matter, body) = YamlFrontMatter::extract("---\ntitle: \"T\"\n---\nHello\nWorld")
        .unwrap();

    assert_eq!(front_matter, "title: \"T\"\n");
    assert_eq!(body, "Hello\nWorld");
}

#[test]
fn delimiter_recognized_with_surrounding_whitespace() {
    let (front_matter, body) = YamlFrontMatter::extract("  ---\t\na: 1\n --- \nrest").unwrap();

    assert_eq!(front_matter, "a: 1\n");
    assert_eq!(body, "rest");
}

#[test]
fn adjacent_delimiters_yield_empty_front_matter() {
    let (front_matter, body) = YamlFrontMatter::extract("---\n---\nbody here").unwrap();

    assert_eq!(front_matter, "");
    assert_eq!(body, "body here");
}

#[test]
fn lines_before_opening_delimiter_are_skipped() {
    let (front_matter, body) = YamlFrontMatter::extract("preamble\n---\na: 1\n---\ntail").unwrap();

    assert_eq!(front_matter, "a: 1\n");
    assert_eq!(body, "tail");
}

#[test]
fn carriage_returns_are_dropped_at_line_ends() {
    let (front_matter, body) = YamlFrontMatter::extract("---\r\na: 1\r\n---\r\nB\r\nC").unwrap();

    assert_eq!(front_matter, "a: 1\n");
    assert_eq!(body, "B\nC");
}
