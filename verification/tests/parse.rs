use serde::de::Error as _;
use serde::Deserialize;
use serde_yaml::Value;
use yaml_front_matter::YamlFrontMatter;

const MARKDOWN: &'static str = r#"
---
title: "Installing The Rust Programming Language on Windows"
description: "A tutorial on installing the Rust Programming Language on Windows."
categories: [rust, tutorial, windows, install]
date: 2021-09-13T03:48:00
---

# Installing The Rust Programming Language on Windows

## Motivation

In the past days I´ve been using Unix based systems to do my software
development work, macOS and Ubuntu are both my main operative systems nowadays.

But Windows is getting closer as well, as I get more involved into systems
programming, I'm also getting into writing Rust crates which must be supported in
different platforms, such as macOS, Linux and Windows.

Currently I'm working on a crate called [local-ip-address](https://github.com/EstebanBorai/local-ip-address).

The main goal of this crate is to list system's network interfaces along
with related data such as interface name, interface family (AFINET or AFINET6 for instance),
IP address, subnet mask and any other relevant properties.

Given that every system has a particular way to gather network interfaces
details, I decided to install Windows in my PC as a dual-boot option along with Ubuntu.

This will give me first-class access to the popular Win32 API, which I'm using through [windows-rs](https://github.com/microsoft/windows-rs) crate.

After having Windows up and running, I'm also installing Rust on Windows and I'm documenting
it for future references.
"#;

struct Metadata {
    title: String,
    description: String,
    categories: Vec<String>,
    date: String,
}

fn string_field<E: serde::de::Error>(value: &Value, name: &str) -> Result<String, E> {
    match value.get(name) {
        Some(Value::String(s)) => Ok(s.clone()),
        _ => Err(E::custom(format!("missing string field {}", name))),
    }
}

impl<'de> Deserialize<'de> for Metadata {
    fn deserialize<D>(deserializer: D) -> Result<Self, D::Error>
    where
        D: serde::Deserializer<'de>,
    {
        let value = Value::deserialize(deserializer)?;
        let title = string_field(&value, "title")?;
        let description = string_field(&value, "description")?;
        let categories = match value.get("categories") {
            Some(Value::Sequence(items)) => {
                let mut out = Vec::new();
                for item in items {
                    match item {
                        Value::String(s) => out.push(s.clone()),
                        _ => return Err(D::Error::custom("categories holds a non-string")),
                    }
                }
                out
            }
            _ => return Err(D::Error::custom("missing sequence field categories")),
        };
        let date = string_field(&value, "date")?;
        Ok(Metadata { title, description, categories, date })
    }
}

struct Title {
    title: String,
}

impl<'de> Deserialize<'de> for Title {
    fn deserialize<D>(deserializer: D) -> Result<Self, D::Error>
    where
        D: serde::Deserializer<'de>,
    {
        let value = Value::deserialize(deserializer)?;
        let title = string_field(&value, "title")?;
        Ok(Title { title })
    }
}

#[test]
fn parses_markdown_into_document() {
    let document = YamlFrontMatter::parse::<Metadata>(MARKDOWN).unwrap();
    let metadata = document.metadata;

    assert_eq!(
        metadata.title,
        "Installing The Rust Programming Language on Windows"
    );
    assert_eq!(
        metadata.description,
        "A tutorial on installing the Rust Programming Language on Windows."
    );
    assert_eq!(
        metadata.categories,
        vec!["rust", "tutorial", "windows", "install"]
    );
    assert_eq!(metadata.date, "2021-09-13T03:48:00");
}

#[test]
fn parses_simple_document_with_body() {
    let document = YamlFrontMatter::parse::<Title>("---\ntitle: \"T\"\n---\nHello\nWorld")
        .unwrap();

    assert_eq!(document.metadata.title, "T");
    assert_eq!(document.content, "Hello\nWorld");
}

#[test]
fn decoding_twice_yields_equal_values() {
    let first = YamlFrontMatter::parse::<Metadata>(MARKDOWN).unwrap();
    let second = YamlFrontMatter::parse::<Metadata>(MARKDOWN).unwrap();

    assert_eq!(first.metadata.title, second.metadata.title);
    assert_eq!(first.metadata.description, second.metadata.description);
    assert_eq!(first.metadata.categories, second.metadata.categories);
    assert_eq!(first.metadata.date, second.metadata.date);
    assert_eq!(first.content, second.content);
}

#[test]
fn package_passes_decoder_outcome_through() {
    let decoded: Result<i64, serde_yaml::Error> = serde_yaml::from_str("3");
    let document = YamlFrontMatter::package(decoded, String::from("body")).unwrap();
    assert_eq!(document.metadata, 3);
    assert_eq!(document.content, "body");

    let failed: Result<i64, serde_yaml::Error> = serde_yaml::from_str("[");
    assert!(YamlFrontMatter::package(failed, String::from("body")).is_err());
}

#[test]
fn malformed_front_matter_propagates_decode_error() {
    let result = YamlFrontMatter::parse::<Title>("---\ntitle: [1,2\n---\nbody");

    assert!(result.is_err());
}

#[test]
fn missing_required_field_propagates_decode_error() {
    let result = YamlFrontMatter::parse::<Title>("---\ndate: 2021-09-13T03:48:00\n---\nbody");

    assert!(result.is_err());
}

#[test]
fn empty_front_matter_fails_against_required_record() {
    let result = YamlFrontMatter::parse::<Title>("---\n---\nbody");

    assert!(result.is_err());
}
