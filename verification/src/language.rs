//! Language inference for newly created buffers.
//!
//! A language tag is chosen once, at creation time: first from the path's
//! extension (case-insensitively, through a fixed table), and only when the
//! path is absent or has no extension, from the shape of the content (shebang
//! lines, then crude substring heuristics). A path whose extension is not in
//! the table yields no tag at all: the content is not consulted.

use vstd::prelude::*;
use vstd::string::StrSliceExecFns;
use vstd::string::StringSliceAdditionalSpecFns;
use crate::text::{
    bytes_eq, contains, contains_seq, has_prefix, last_occurrence, lower, lower_bytes, match_at,
    opt_bytes, rfind_byte, sub_bytes,
};

verus! {

/// The extension of a path: the part of the file name (what follows the last
/// `/`) after its last `.`, provided that dot is not the name's first byte.
pub open spec fn ext_of(p: Seq<u8>) -> Option<Seq<u8>> {
    let name_start = last_occurrence(p, 47) + 1;
    let d = last_occurrence(p, 46);
    if d > name_start {
        Some(p.subrange(d + 1, p.len() as int))
    } else {
        None
    }
}

/// The fixed extension table, applied to the lower-cased extension.
pub open spec fn ext_language(e: Seq<u8>) -> Option<Seq<u8>> {
    let x = lower(e);
    if x == "rs".spec_bytes() {
        Some("rust".spec_bytes())
    } else if x == "js".spec_bytes() {
        Some("javascript".spec_bytes())
    } else if x == "ts".spec_bytes() {
        Some("typescript".spec_bytes())
    } else if x == "py".spec_bytes() {
        Some("python".spec_bytes())
    } else if x == "go".spec_bytes() {
        Some("go".spec_bytes())
    } else if x == "java".spec_bytes() {
        Some("java".spec_bytes())
    } else if x == "cpp".spec_bytes() || x == "cc".spec_bytes() || x == "cxx".spec_bytes() {
        Some("cpp".spec_bytes())
    } else if x == "c".spec_bytes() {
        Some("c".spec_bytes())
    } else if x == "h".spec_bytes() || x == "hpp".spec_bytes() {
        Some("c".spec_bytes())
    } else if x == "html".spec_bytes() {
        Some("html".spec_bytes())
    } else if x == "css".spec_bytes() {
        Some("css".spec_bytes())
    } else if x == "json".spec_bytes() {
        Some("json".spec_bytes())
    } else if x == "xml".spec_bytes() {
        Some("xml".spec_bytes())
    } else if x == "md".spec_bytes() {
        Some("markdown".spec_bytes())
    } else if x == "yml".spec_bytes() || x == "yaml".spec_bytes() {
        Some("yaml".spec_bytes())
    } else if x == "toml".spec_bytes() {
        Some("toml".spec_bytes())
    } else if x == "sql".spec_bytes() {
        Some("sql".spec_bytes())
    } else if x == "sh".spec_bytes() || x == "bash".spec_bytes() {
        Some("bash".spec_bytes())
    } else {
        None
    }
}

/// The content heuristics: shebang lines first, then substring cues.
pub open spec fn content_language(c: Seq<u8>) -> Option<Seq<u8>> {
    if match_at(c, "#!/bin/bash".spec_bytes(), 0) || match_at(
        c,
        "#!/usr/bin/env bash".spec_bytes(),
        0,
    ) {
        Some("bash".spec_bytes())
    } else if match_at(c, "#!/usr/bin/env python".spec_bytes(), 0) || match_at(
        c,
        "#!/usr/bin/python".spec_bytes(),
        0,
    ) {
        Some("python".spec_bytes())
    } else if contains_seq(c, "fn main()".spec_bytes()) && contains_seq(
        c,
        "println!".spec_bytes(),
    ) {
        Some("rust".spec_bytes())
    } else if contains_seq(c, "function".spec_bytes()) && contains_seq(
        c,
        "console.log".spec_bytes(),
    ) {
        Some("javascript".spec_bytes())
    } else {
        None
    }
}

/// The language tag a buffer is created with.
pub open spec fn language_of(path: Option<Seq<u8>>, content: Seq<u8>) -> Option<Seq<u8>> {
    match path {
        Some(p) => match ext_of(p) {
            Some(e) => ext_language(e),
            None => content_language(content),
        },
        None => content_language(content),
    }
}

/// The extension of a path, as [`ext_of`] defines it.
pub fn extension_of(p: &Vec<u8>) -> (r: Option<Vec<u8>>)
    ensures
        opt_bytes(r) == ext_of(p@),
{
    proof {
        assert(p@.len() == p.len());
    }
    let name_start: usize = match rfind_byte(p, 47) {
        Some(i) => i + 1,
        None => 0,
    };
    match rfind_byte(p, 46) {
        Some(d) => {
            if d > name_start {
                Some(sub_bytes(p, d + 1, p.len()))
            } else {
                None
            }
        },
        None => None,
    }
}

fn ext_language_exec(e: &Vec<u8>) -> (r: Option<Vec<u8>>)
    ensures
        opt_bytes(r) == ext_language(e@),
{
    let x = lower_bytes(e);
    if bytes_eq(&x, &"rs".as_bytes_vec()) {
        Some("rust".as_bytes_vec())
    } else if bytes_eq(&x, &"js".as_bytes_vec()) {
        Some("javascript".as_bytes_vec())
    } else if bytes_eq(&x, &"ts".as_bytes_vec()) {
        Some("typescript".as_bytes_vec())
    } else if bytes_eq(&x, &"py".as_bytes_vec()) {
        Some("python".as_bytes_vec())
    } else if bytes_eq(&x, &"go".as_bytes_vec()) {
        Some("go".as_bytes_vec())
    } else if bytes_eq(&x, &"java".as_bytes_vec()) {
        Some("java".as_bytes_vec())
    } else if bytes_eq(&x, &"cpp".as_bytes_vec()) || bytes_eq(&x, &"cc".as_bytes_vec())
        || bytes_eq(&x, &"cxx".as_bytes_vec()) {
        Some("cpp".as_bytes_vec())
    } else if bytes_eq(&x, &"c".as_bytes_vec()) {
        Some("c".as_bytes_vec())
    } else if bytes_eq(&x, &"h".as_bytes_vec()) || bytes_eq(&x, &"hpp".as_bytes_vec()) {
        Some("c".as_bytes_vec())
    } else if bytes_eq(&x, &"html".as_bytes_vec()) {
        Some("html".as_bytes_vec())
    } else if bytes_eq(&x, &"css".as_bytes_vec()) {
        Some("css".as_bytes_vec())
    } else if bytes_eq(&x, &"json".as_bytes_vec()) {
        Some("json".as_bytes_vec())
    } else if bytes_eq(&x, &"xml".as_bytes_vec()) {
        Some("xml".as_bytes_vec())
    } else if bytes_eq(&x, &"md".as_bytes_vec()) {
        Some("markdown".as_bytes_vec())
    } else if bytes_eq(&x, &"yml".as_bytes_vec()) || bytes_eq(&x, &"yaml".as_bytes_vec()) {
        Some("yaml".as_bytes_vec())
    } else if bytes_eq(&x, &"toml".as_bytes_vec()) {
        Some("toml".as_bytes_vec())
    } else if bytes_eq(&x, &"sql".as_bytes_vec()) {
        Some("sql".as_bytes_vec())
    } else if bytes_eq(&x, &"sh".as_bytes_vec()) || bytes_eq(&x, &"bash".as_bytes_vec()) {
        Some("bash".as_bytes_vec())
    } else {
        None
    }
}

fn content_language_exec(c: &Vec<u8>) -> (r: Option<Vec<u8>>)
    ensures
        opt_bytes(r) == content_language(c@),
{
    if has_prefix(c, &"#!/bin/bash".as_bytes_vec()) || has_prefix(
        c,
        &"#!/usr/bin/env bash".as_bytes_vec(),
    ) {
        Some("bash".as_bytes_vec())
    } else if has_prefix(c, &"#!/usr/bin/env python".as_bytes_vec()) || has_prefix(
        c,
        &"#!/usr/bin/python".as_bytes_vec(),
    ) {
        Some("python".as_bytes_vec())
    } else if contains(c, &"fn main()".as_bytes_vec()) && contains(c, &"println!".as_bytes_vec()) {
        Some("rust".as_bytes_vec())
    } else if contains(c, &"function".as_bytes_vec()) && contains(
        c,
        &"console.log".as_bytes_vec(),
    ) {
        Some("javascript".as_bytes_vec())
    } else {
        None
    }
}

/// Infers the language tag of a buffer from its path and content.
pub fn detect_language(path: &Option<Vec<u8>>, content: &Vec<u8>) -> (r: Option<Vec<u8>>)
    ensures
        opt_bytes(r) == language_of(opt_bytes(*path), content@),
{
    match path {
        Some(p) => match extension_of(p) {
            Some(e) => ext_language_exec(&e),
            None => content_language_exec(content),
        },
        None => content_language_exec(content),
    }
}

} // verus!
