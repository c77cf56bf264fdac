//! Content types: by file extension, else by sniffing the first bytes.
use vstd::prelude::*;
use crate::paths::{components, parts_of, path_components, Component};
use crate::text::{chars_equal, chars_of};

verus! {

/// How many leading bytes are examined to tell text from binary content.
pub const ASCII_FAILURES: usize = 25;

/// The content type registered for a file extension.
pub open spec fn known_type(e: Seq<char>) -> Option<Seq<char>> {
    if e == "html"@ || e == "htm"@ {
        Some("text/html"@)
    } else if e == "css"@ {
        Some("text/css"@)
    } else if e == "js"@ || e == "mjs"@ {
        Some("application/javascript"@)
    } else if e == "adoc"@ {
        Some("text/asciidoc"@)
    } else if e == "json"@ {
        Some("application/json"@)
    } else if e == "toml"@ {
        Some("text/plain"@)
    } else if e == "php"@ {
        Some("application/x-httpd-php"@)
    } else if e == "md"@ {
        Some("text/markdown"@)
    } else if e == "png"@ {
        Some("image/png"@)
    } else if e == "jpg"@ || e == "jpeg"@ {
        Some("image/jpeg"@)
    } else if e == "gif"@ {
        Some("image/gif"@)
    } else if e == "bmp"@ {
        Some("image/bmp"@)
    } else if e == "svg"@ {
        Some("image/svg+xml"@)
    } else if e == "ico"@ {
        Some("image/x-icon"@)
    } else if e == "wasm"@ {
        Some("application/wasm"@)
    } else if e == "pdf"@ {
        Some("application/pdf"@)
    } else if e == "xml"@ {
        Some("application/xml"@)
    } else if e == "wav"@ {
        Some("audio/wav"@)
    } else if e == "woff"@ {
        Some("font/woff"@)
    } else if e == "woff2"@ {
        Some("font/woff2"@)
    } else if e == "ttf"@ {
        Some("font/ttf"@)
    } else if e == "bz2"@ {
        Some("application/x-bzip2"@)
    } else if e == "gz"@ {
        Some("application/gzip"@)
    } else if e == "zip"@ {
        Some("application/zip"@)
    } else if e == "7z"@ {
        Some("application/x-7z-compressed"@)
    } else if e == "rtf"@ {
        Some("application/rtf"@)
    } else if e == "doc"@ {
        Some("application/msword"@)
    } else if e == "docx"@ {
        Some("application/vnd.openxmlformats-officedocument.wordprocessingml.document"@)
    } else if e == "ppt"@ {
        Some("application/vnd.ms-powerpoint"@)
    } else if e == "pptx"@ {
        Some("application/vnd.openxmlformats-officedocument.presentationml.presentation"@)
    } else if e == "xls"@ {
        Some("application/vnd.ms-excel"@)
    } else if e == "xlsx"@ {
        Some("application/vnd.openxmlformats-officedocument.spreadsheetml.sheet"@)
    } else {
        None
    }
}

proof fn lemma_type_of_html()
    ensures
        known_type("html"@) == Some("text/html"@),
{
    reveal_strlit("html");
}

proof fn lemma_type_of_htm()
    ensures
        known_type("htm"@) == Some("text/html"@),
{
    reveal_strlit("htm");
    reveal_strlit("html");
    assert("htm"@.len() != "html"@.len());
}

proof fn lemma_type_of_css()
    ensures
        known_type("css"@) == Some("text/css"@),
{
    reveal_strlit("css");
    reveal_strlit("html");
    reveal_strlit("htm");
    assert("css"@.len() != "html"@.len());
    assert("css"@[0] != "htm"@[0]);
}

proof fn lemma_type_of_js()
    ensures
        known_type("js"@) == Some("application/javascript"@),
{
    reveal_strlit("js");
    reveal_strlit("html");
    reveal_strlit("htm");
    reveal_strlit("css");
    assert("js"@.len() != "html"@.len());
    assert("js"@.len() != "htm"@.len());
    assert("js"@.len() != "css"@.len());
}

proof fn lemma_type_of_mjs()
    ensures
        known_type("mjs"@) == Some("application/javascript"@),
{
    reveal_strlit("mjs");
    reveal_strlit("html");
    reveal_strlit("htm");
    reveal_strlit("css");
    reveal_strlit("js");
    assert("mjs"@.len() != "html"@.len());
    assert("mjs"@[0] != "htm"@[0]);
    assert("mjs"@[0] != "css"@[0]);
    assert("mjs"@.len() != "js"@.len());
}

proof fn lemma_type_of_adoc()
    ensures
        known_type("adoc"@) == Some("text/asciidoc"@),
{
    reveal_strlit("adoc");
    reveal_strlit("html");
    reveal_strlit("htm");
    reveal_strlit("css");
    reveal_strlit("js");
    reveal_strlit("mjs");
    assert("adoc"@[0] != "html"@[0]);
    assert("adoc"@.len() != "htm"@.len());
    assert("adoc"@.len() != "css"@.len());
    assert("adoc"@.len() != "js"@.len());
    assert("adoc"@.len() != "mjs"@.len());
}

proof fn lemma_type_of_json()
    ensures
        known_type("json"@) == Some("application/json"@),
{
    reveal_strlit("json");
    reveal_strlit("html");
    reveal_strlit("htm");
    reveal_strlit("css");
    reveal_strlit("js");
    reveal_strlit("mjs");
    reveal_strlit("adoc");
    assert("json"@[0] != "html"@[0]);
    assert("json"@.len() != "htm"@.len());
    assert("json"@.len() != "css"@.len());
    assert("json"@.len() != "js"@.len());
    assert("json"@.len() != "mjs"@.len());
    assert("json"@[0] != "adoc"@[0]);
}

proof fn lemma_type_of_toml()
    ensures
        known_type("toml"@) == Some("text/plain"@),
{
    reveal_strlit("toml");
    reveal_strlit("html");
    reveal_strlit("htm");
    reveal_strlit("css");
    reveal_strlit("js");
    reveal_strlit("mjs");
    reveal_strlit("adoc");
    reveal_strlit("json");
    assert("toml"@[0] != "html"@[0]);
    assert("toml"@.len() != "htm"@.len());
    assert("toml"@.len() != "css"@.len());
    assert("toml"@.len() != "js"@.len());
    assert("toml"@.len() != "mjs"@.len());
    assert("toml"@[0] != "adoc"@[0]);
    assert("toml"@[0] != "json"@[0]);
}

proof fn lemma_type_of_php()
    ensures
        known_type("php"@) == Some("application/x-httpd-php"@),
{
    reveal_strlit("php");
    reveal_strlit("html");
    reveal_strlit("htm");
    reveal_strlit("css");
    reveal_strlit("js");
    reveal_strlit("mjs");
    reveal_strlit("adoc");
    reveal_strlit("json");
    reveal_strlit("toml");
    assert("php"@.len() != "html"@.len());
    assert("php"@[0] != "htm"@[0]);
    assert("php"@[0] != "css"@[0]);
    assert("php"@.len() != "js"@.len());
    assert("php"@[0] != "mjs"@[0]);
    assert("php"@.len() != "adoc"@.len());
    assert("php"@.len() != "json"@.len());
    assert("php"@.len() != "toml"@.len());
}

proof fn lemma_type_of_md()
    ensures
        known_type("md"@) == Some("text/markdown"@),
{
    reveal_strlit("md");
    reveal_strlit("html");
    reveal_strlit("htm");
    reveal_strlit("css");
    reveal_strlit("js");
    reveal_strlit("mjs");
    reveal_strlit("adoc");
    reveal_strlit("json");
    reveal_strlit("toml");
    reveal_strlit("php");
    assert("md"@.len() != "html"@.len());
    assert("md"@.len() != "htm"@.len());
    assert("md"@.len() != "css"@.len());
    assert("md"@[0] != "js"@[0]);
    assert("md"@.len() != "mjs"@.len());
    assert("md"@.len() != "adoc"@.len());
    assert("md"@.len() != "json"@.len());
    assert("md"@.len() != "toml"@.len());
    assert("md"@.len() != "php"@.len());
}

proof fn lemma_type_of_png()
    ensures
        known_type("png"@) == Some("image/png"@),
{
    reveal_strlit("png");
    reveal_strlit("html");
    reveal_strlit("htm");
    reveal_strlit("css");
    reveal_strlit("js");
    reveal_strlit("mjs");
    reveal_strlit("adoc");
    reveal_strlit("json");
    reveal_strlit("toml");
    reveal_strlit("php");
    reveal_strlit("md");
    assert("png"@.len() != "html"@.len());
    assert("png"@[0] != "htm"@[0]);
    assert("png"@[0] != "css"@[0]);
    assert("png"@.len() != "js"@.len());
    assert("png"@[0] != "mjs"@[0]);
    assert("png"@.len() != "adoc"@.len());
    assert("png"@.len() != "json"@.len());
    assert("png"@.len() != "toml"@.len());
    assert("png"@[1] != "php"@[1]);
    assert("png"@.len() != "md"@.len());
}

proof fn lemma_type_of_jpg()
    ensures
        known_type("jpg"@) == Some("image/jpeg"@),
{
    reveal_strlit("jpg");
    reveal_strlit("html");
    reveal_strlit("htm");
    reveal_strlit("css");
    reveal_strlit("js");
    reveal_strlit("mjs");
    reveal_strlit("adoc");
    reveal_strlit("json");
    reveal_strlit("toml");
    reveal_strlit("php");
    reveal_strlit("md");
    reveal_strlit("png");
    assert("jpg"@.len() != "html"@.len());
    assert("jpg"@[0] != "htm"@[0]);
    assert("jpg"@[0] != "css"@[0]);
    assert("jpg"@.len() != "js"@.len());
    assert("jpg"@[0] != "mjs"@[0]);
    assert("jpg"@.len() != "adoc"@.len());
    assert("jpg"@.len() != "json"@.len());
    assert("jpg"@.len() != "toml"@.len());
    assert("jpg"@[0] != "php"@[0]);
    assert("jpg"@.len() != "md"@.len());
    assert("jpg"@[0] != "png"@[0]);
}

proof fn lemma_type_of_jpeg()
    ensures
        known_type("jpeg"@) == Some("image/jpeg"@),
{
    reveal_strlit("jpeg");
    reveal_strlit("html");
    reveal_strlit("htm");
    reveal_strlit("css");
    reveal_strlit("js");
    reveal_strlit("mjs");
    reveal_strlit("adoc");
    reveal_strlit("json");
    reveal_strlit("toml");
    reveal_strlit("php");
    reveal_strlit("md");
    reveal_strlit("png");
    reveal_strlit("jpg");
    assert("jpeg"@[0] != "html"@[0]);
    assert("jpeg"@.len() != "htm"@.len());
    assert("jpeg"@.len() != "css"@.len());
    assert("jpeg"@.len() != "js"@.len());
    assert("jpeg"@.len() != "mjs"@.len());
    assert("jpeg"@[0] != "adoc"@[0]);
    assert("jpeg"@[1] != "json"@[1]);
    assert("jpeg"@[0] != "toml"@[0]);
    assert("jpeg"@.len() != "php"@.len());
    assert("jpeg"@.len() != "md"@.len());
    assert("jpeg"@.len() != "png"@.len());
    assert("jpeg"@.len() != "jpg"@.len());
}

proof fn lemma_type_of_gif()
    ensures
        known_type("gif"@) == Some("image/gif"@),
{
    reveal_strlit("gif");
    reveal_strlit("html");
    reveal_strlit("htm");
    reveal_strlit("css");
    reveal_strlit("js");
    reveal_strlit("mjs");
    reveal_strlit("adoc");
    reveal_strlit("json");
    reveal_strlit("toml");
    reveal_strlit("php");
    reveal_strlit("md");
    reveal_strlit("png");
    reveal_strlit("jpg");
    reveal_strlit("jpeg");
    assert("gif"@.len() != "html"@.len());
    assert("gif"@[0] != "htm"@[0]);
    assert("gif"@[0] != "css"@[0]);
    assert("gif"@.len() != "js"@.len());
    assert("gif"@[0] != "mjs"@[0]);
    assert("gif"@.len() != "adoc"@.len());
    assert("gif"@.len() != "json"@.len());
    assert("gif"@.len() != "toml"@.len());
    assert("gif"@[0] != "php"@[0]);
    assert("gif"@.len() != "md"@.len());
    assert("gif"@[0] != "png"@[0]);
    assert("gif"@[0] != "jpg"@[0]);
    assert("gif"@.len() != "jpeg"@.len());
}

proof fn lemma_type_of_bmp()
    ensures
        known_type("bmp"@) == Some("image/bmp"@),
{
    reveal_strlit("bmp");
    reveal_strlit("html");
    reveal_strlit("htm");
    reveal_strlit("css");
    reveal_strlit("js");
    reveal_strlit("mjs");
    reveal_strlit("adoc");
    reveal_strlit("json");
    reveal_strlit("toml");
    reveal_strlit("php");
    reveal_strlit("md");
    reveal_strlit("png");
    reveal_strlit("jpg");
    reveal_strlit("jpeg");
    reveal_strlit("gif");
    assert("bmp"@.len() != "html"@.len());
    assert("bmp"@[0] != "htm"@[0]);
    assert("bmp"@[0] != "css"@[0]);
    assert("bmp"@.len() != "js"@.len());
    assert("bmp"@[0] != "mjs"@[0]);
    assert("bmp"@.len() != "adoc"@.len());
    assert("bmp"@.len() != "json"@.len());
    assert("bmp"@.len() != "toml"@.len());
    assert("bmp"@[0] != "php"@[0]);
    assert("bmp"@.len() != "md"@.len());
    assert("bmp"@[0] != "png"@[0]);
    assert("bmp"@[0] != "jpg"@[0]);
    assert("bmp"@.len() != "jpeg"@.len());
    assert("bmp"@[0] != "gif"@[0]);
}

proof fn lemma_type_of_svg()
    ensures
        known_type("svg"@) == Some("image/svg+xml"@),
{
    reveal_strlit("svg");
    reveal_strlit("html");
    reveal_strlit("htm");
    reveal_strlit("css");
    reveal_strlit("js");
    reveal_strlit("mjs");
    reveal_strlit("adoc");
    reveal_strlit("json");
    reveal_strlit("toml");
    reveal_strlit("php");
    reveal_strlit("md");
    reveal_strlit("png");
    reveal_strlit("jpg");
    reveal_strlit("jpeg");
    reveal_strlit("gif");
    reveal_strlit("bmp");
    assert("svg"@.len() != "html"@.len());
    assert("svg"@[0] != "htm"@[0]);
    assert("svg"@[0] != "css"@[0]);
    assert("svg"@.len() != "js"@.len());
    assert("svg"@[0] != "mjs"@[0]);
    assert("svg"@.len() != "adoc"@.len());
    assert("svg"@.len() != "json"@.len());
    assert("svg"@.len() != "toml"@.len());
    assert("svg"@[0] != "php"@[0]);
    assert("svg"@.len() != "md"@.len());
    assert("svg"@[0] != "png"@[0]);
    assert("svg"@[0] != "jpg"@[0]);
    assert("svg"@.len() != "jpeg"@.len());
    assert("svg"@[0] != "gif"@[0]);
    assert("svg"@[0] != "bmp"@[0]);
}

proof fn lemma_type_of_ico()
    ensures
        known_type("ico"@) == Some("image/x-icon"@),
{
    reveal_strlit("ico");
    reveal_strlit("html");
    reveal_strlit("htm");
    reveal_strlit("css");
    reveal_strlit("js");
    reveal_strlit("mjs");
    reveal_strlit("adoc");
    reveal_strlit("json");
    reveal_strlit("toml");
    reveal_strlit("php");
    reveal_strlit("md");
    reveal_strlit("png");
    reveal_strlit("jpg");
    reveal_strlit("jpeg");
    reveal_strlit("gif");
    reveal_strlit("bmp");
    reveal_strlit("svg");
    assert("ico"@.len() != "html"@.len());
    assert("ico"@[0] != "htm"@[0]);
    assert("ico"@[0] != "css"@[0]);
    assert("ico"@.len() != "js"@.len());
    assert("ico"@[0] != "mjs"@[0]);
    assert("ico"@.len() != "adoc"@.len());
    assert("ico"@.len() != "json"@.len());
    assert("ico"@.len() != "toml"@.len());
    assert("ico"@[0] != "php"@[0]);
    assert("ico"@.len() != "md"@.len());
    assert("ico"@[0] != "png"@[0]);
    assert("ico"@[0] != "jpg"@[0]);
    assert("ico"@.len() != "jpeg"@.len());
    assert("ico"@[0] != "gif"@[0]);
    assert("ico"@[0] != "bmp"@[0]);
    assert("ico"@[0] != "svg"@[0]);
}

proof fn lemma_type_of_wasm()
    ensures
        known_type("wasm"@) == Some("application/wasm"@),
{
    reveal_strlit("wasm");
    reveal_strlit("html");
    reveal_strlit("htm");
    reveal_strlit("css");
    reveal_strlit("js");
    reveal_strlit("mjs");
    reveal_strlit("adoc");
    reveal_strlit("json");
    reveal_strlit("toml");
    reveal_strlit("php");
    reveal_strlit("md");
    reveal_strlit("png");
    reveal_strlit("jpg");
    reveal_strlit("jpeg");
    reveal_strlit("gif");
    reveal_strlit("bmp");
    reveal_strlit("svg");
    reveal_strlit("ico");
    assert("wasm"@[0] != "html"@[0]);
    assert("wasm"@.len() != "htm"@.len());
    assert("wasm"@.len() != "css"@.len());
    assert("wasm"@.len() != "js"@.len());
    assert("wasm"@.len() != "mjs"@.len());
    assert("wasm"@[0] != "adoc"@[0]);
    assert("wasm"@[0] != "json"@[0]);
    assert("wasm"@[0] != "toml"@[0]);
    assert("wasm"@.len() != "php"@.len());
    assert("wasm"@.len() != "md"@.len());
    assert("wasm"@.len() != "png"@.len());
    assert("wasm"@.len() != "jpg"@.len());
    assert("wasm"@[0] != "jpeg"@[0]);
    assert("wasm"@.len() != "gif"@.len());
    assert("wasm"@.len() != "bmp"@.len());
    assert("wasm"@.len() != "svg"@.len());
    assert("wasm"@.len() != "ico"@.len());
}

proof fn lemma_type_of_pdf()
    ensures
        known_type("pdf"@) == Some("application/pdf"@),
{
    reveal_strlit("pdf");
    reveal_strlit("html");
    reveal_strlit("htm");
    reveal_strlit("css");
    reveal_strlit("js");
    reveal_strlit("mjs");
    reveal_strlit("adoc");
    reveal_strlit("json");
    reveal_strlit("toml");
    reveal_strlit("php");
    reveal_strlit("md");
    reveal_strlit("png");
    reveal_strlit("jpg");
    reveal_strlit("jpeg");
    reveal_strlit("gif");
    reveal_strlit("bmp");
    reveal_strlit("svg");
    reveal_strlit("ico");
    reveal_strlit("wasm");
    assert("pdf"@.len() != "html"@.len());
    assert("pdf"@[0] != "htm"@[0]);
    assert("pdf"@[0] != "css"@[0]);
    assert("pdf"@.len() != "js"@.len());
    assert("pdf"@[0] != "mjs"@[0]);
    assert("pdf"@.len() != "adoc"@.len());
    assert("pdf"@.len() != "json"@.len());
    assert("pdf"@.len() != "toml"@.len());
    assert("pdf"@[1] != "php"@[1]);
    assert("pdf"@.len() != "md"@.len());
    assert("pdf"@[1] != "png"@[1]);
    assert("pdf"@[0] != "jpg"@[0]);
    assert("pdf"@.len() != "jpeg"@.len());
    assert("pdf"@[0] != "gif"@[0]);
    assert("pdf"@[0] != "bmp"@[0]);
    assert("pdf"@[0] != "svg"@[0]);
    assert("pdf"@[0] != "ico"@[0]);
    assert("pdf"@.len() != "wasm"@.len());
}

proof fn lemma_type_of_xml()
    ensures
        known_type("xml"@) == Some("application/xml"@),
{
    reveal_strlit("xml");
    reveal_strlit("html");
    reveal_strlit("htm");
    reveal_strlit("css");
    reveal_strlit("js");
    reveal_strlit("mjs");
    reveal_strlit("adoc");
    reveal_strlit("json");
    reveal_strlit("toml");
    reveal_strlit("php");
    reveal_strlit("md");
    reveal_strlit("png");
    reveal_strlit("jpg");
    reveal_strlit("jpeg");
    reveal_strlit("gif");
    reveal_strlit("bmp");
    reveal_strlit("svg");
    reveal_strlit("ico");
    reveal_strlit("wasm");
    reveal_strlit("pdf");
    assert("xml"@.len() != "html"@.len());
    assert("xml"@[0] != "htm"@[0]);
    assert("xml"@[0] != "css"@[0]);
    assert("xml"@.len() != "js"@.len());
    assert("xml"@[0] != "mjs"@[0]);
    assert("xml"@.len() != "adoc"@.len());
    assert("xml"@.len() != "json"@.len());
    assert("xml"@.len() != "toml"@.len());
    assert("xml"@[0] != "php"@[0]);
    assert("xml"@.len() != "md"@.len());
    assert("xml"@[0] != "png"@[0]);
    assert("xml"@[0] != "jpg"@[0]);
    assert("xml"@.len() != "jpeg"@.len());
    assert("xml"@[0] != "gif"@[0]);
    assert("xml"@[0] != "bmp"@[0]);
    assert("xml"@[0] != "svg"@[0]);
    assert("xml"@[0] != "ico"@[0]);
    assert("xml"@.len() != "wasm"@.len());
    assert("xml"@[0] != "pdf"@[0]);
}

proof fn lemma_type_of_wav()
    ensures
        known_type("wav"@) == Some("audio/wav"@),
{
    reveal_strlit("wav");
    reveal_strlit("html");
    reveal_strlit("htm");
    reveal_strlit("css");
    reveal_strlit("js");
    reveal_strlit("mjs");
    reveal_strlit("adoc");
    reveal_strlit("json");
    reveal_strlit("toml");
    reveal_strlit("php");
    reveal_strlit("md");
    reveal_strlit("png");
    reveal_strlit("jpg");
    reveal_strlit("jpeg");
    reveal_strlit("gif");
    reveal_strlit("bmp");
    reveal_strlit("svg");
    reveal_strlit("ico");
    reveal_strlit("wasm");
    reveal_strlit("pdf");
    reveal_strlit("xml");
    assert("wav"@.len() != "html"@.len());
    assert("wav"@[0] != "htm"@[0]);
    assert("wav"@[0] != "css"@[0]);
    assert("wav"@.len() != "js"@.len());
    assert("wav"@[0] != "mjs"@[0]);
    assert("wav"@.len() != "adoc"@.len());
    assert("wav"@.len() != "json"@.len());
    assert("wav"@.len() != "toml"@.len());
    assert("wav"@[0] != "php"@[0]);
    assert("wav"@.len() != "md"@.len());
    assert("wav"@[0] != "png"@[0]);
    assert("wav"@[0] != "jpg"@[0]);
    assert("wav"@.len() != "jpeg"@.len());
    assert("wav"@[0] != "gif"@[0]);
    assert("wav"@[0] != "bmp"@[0]);
    assert("wav"@[0] != "svg"@[0]);
    assert("wav"@[0] != "ico"@[0]);
    assert("wav"@.len() != "wasm"@.len());
    assert("wav"@[0] != "pdf"@[0]);
    assert("wav"@[0] != "xml"@[0]);
}

proof fn lemma_type_of_woff()
    ensures
        known_type("woff"@) == Some("font/woff"@),
{
    reveal_strlit("woff");
    reveal_strlit("html");
    reveal_strlit("htm");
    reveal_strlit("css");
    reveal_strlit("js");
    reveal_strlit("mjs");
    reveal_strlit("adoc");
    reveal_strlit("json");
    reveal_strlit("toml");
    reveal_strlit("php");
    reveal_strlit("md");
    reveal_strlit("png");
    reveal_strlit("jpg");
    reveal_strlit("jpeg");
    reveal_strlit("gif");
    reveal_strlit("bmp");
    reveal_strlit("svg");
    reveal_strlit("ico");
    reveal_strlit("wasm");
    reveal_strlit("pdf");
    reveal_strlit("xml");
    reveal_strlit("wav");
    assert("woff"@[0] != "html"@[0]);
    assert("woff"@.len() != "htm"@.len());
    assert("woff"@.len() != "css"@.len());
    assert("woff"@.len() != "js"@.len());
    assert("woff"@.len() != "mjs"@.len());
    assert("woff"@[0] != "adoc"@[0]);
    assert("woff"@[0] != "json"@[0]);
    assert("woff"@[0] != "toml"@[0]);
    assert("woff"@.len() != "php"@.len());
    assert("woff"@.len() != "md"@.len());
    assert("woff"@.len() != "png"@.len());
    assert("woff"@.len() != "jpg"@.len());
    assert("woff"@[0] != "jpeg"@[0]);
    assert("woff"@.len() != "gif"@.len());
    assert("woff"@.len() != "bmp"@.len());
    assert("woff"@.len() != "svg"@.len());
    assert("woff"@.len() != "ico"@.len());
    assert("woff"@[1] != "wasm"@[1]);
    assert("woff"@.len() != "pdf"@.len());
    assert("woff"@.len() != "xml"@.len());
    assert("woff"@.len() != "wav"@.len());
}

proof fn lemma_type_of_woff2()
    ensures
        known_type("woff2"@) == Some("font/woff2"@),
{
    reveal_strlit("woff2");
    reveal_strlit("html");
    reveal_strlit("htm");
    reveal_strlit("css");
    reveal_strlit("js");
    reveal_strlit("mjs");
    reveal_strlit("adoc");
    reveal_strlit("json");
    reveal_strlit("toml");
    reveal_strlit("php");
    reveal_strlit("md");
    reveal_strlit("png");
    reveal_strlit("jpg");
    reveal_strlit("jpeg");
    reveal_strlit("gif");
    reveal_strlit("bmp");
    reveal_strlit("svg");
    reveal_strlit("ico");
    reveal_strlit("wasm");
    reveal_strlit("pdf");
    reveal_strlit("xml");
    reveal_strlit("wav");
    reveal_strlit("woff");
    assert("woff2"@.len() != "html"@.len());
    assert("woff2"@.len() != "htm"@.len());
    assert("woff2"@.len() != "css"@.len());
    assert("woff2"@.len() != "js"@.len());
    assert("woff2"@.len() != "mjs"@.len());
    assert("woff2"@.len() != "adoc"@.len());
    assert("woff2"@.len() != "json"@.len());
    assert("woff2"@.len() != "toml"@.len());
    assert("woff2"@.len() != "php"@.len());
    assert("woff2"@.len() != "md"@.len());
    assert("woff2"@.len() != "png"@.len());
    assert("woff2"@.len() != "jpg"@.len());
    assert("woff2"@.len() != "jpeg"@.len());
    assert("woff2"@.len() != "gif"@.len());
    assert("woff2"@.len() != "bmp"@.len());
    assert("woff2"@.len() != "svg"@.len());
    assert("woff2"@.len() != "ico"@.len());
    assert("woff2"@.len() != "wasm"@.len());
    assert("woff2"@.len() != "pdf"@.len());
    assert("woff2"@.len() != "xml"@.len());
    assert("woff2"@.len() != "wav"@.len());
    assert("woff2"@.len() != "woff"@.len());
}

proof fn lemma_type_of_ttf()
    ensures
        known_type("ttf"@) == Some("font/ttf"@),
{
    reveal_strlit("ttf");
    reveal_strlit("html");
    reveal_strlit("htm");
    reveal_strlit("css");
    reveal_strlit("js");
    reveal_strlit("mjs");
    reveal_strlit("adoc");
    reveal_strlit("json");
    reveal_strlit("toml");
    reveal_strlit("php");
    reveal_strlit("md");
    reveal_strlit("png");
    reveal_strlit("jpg");
    reveal_strlit("jpeg");
    reveal_strlit("gif");
    reveal_strlit("bmp");
    reveal_strlit("svg");
    reveal_strlit("ico");
    reveal_strlit("wasm");
    reveal_strlit("pdf");
    reveal_strlit("xml");
    reveal_strlit("wav");
    reveal_strlit("woff");
    reveal_strlit("woff2");
    assert("ttf"@.len() != "html"@.len());
    assert("ttf"@[0] != "htm"@[0]);
    assert("ttf"@[0] != "css"@[0]);
    assert("ttf"@.len() != "js"@.len());
    assert("ttf"@[0] != "mjs"@[0]);
    assert("ttf"@.len() != "adoc"@.len());
    assert("ttf"@.len() != "json"@.len());
    assert("ttf"@.len() != "toml"@.len());
    assert("ttf"@[0] != "php"@[0]);
    assert("ttf"@.len() != "md"@.len());
    assert("ttf"@[0] != "png"@[0]);
    assert("ttf"@[0] != "jpg"@[0]);
    assert("ttf"@.len() != "jpeg"@.len());
    assert("ttf"@[0] != "gif"@[0]);
    assert("ttf"@[0] != "bmp"@[0]);
    assert("ttf"@[0] != "svg"@[0]);
    assert("ttf"@[0] != "ico"@[0]);
    assert("ttf"@.len() != "wasm"@.len());
    assert("ttf"@[0] != "pdf"@[0]);
    assert("ttf"@[0] != "xml"@[0]);
    assert("ttf"@[0] != "wav"@[0]);
    assert("ttf"@.len() != "woff"@.len());
    assert("ttf"@.len() != "woff2"@.len());
}

proof fn lemma_type_of_bz2()
    ensures
        known_type("bz2"@) == Some("application/x-bzip2"@),
{
    reveal_strlit("bz2");
    reveal_strlit("html");
    reveal_strlit("htm");
    reveal_strlit("css");
    reveal_strlit("js");
    reveal_strlit("mjs");
    reveal_strlit("adoc");
    reveal_strlit("json");
    reveal_strlit("toml");
    reveal_strlit("php");
    reveal_strlit("md");
    reveal_strlit("png");
    reveal_strlit("jpg");
    reveal_strlit("jpeg");
    reveal_strlit("gif");
    reveal_strlit("bmp");
    reveal_strlit("svg");
    reveal_strlit("ico");
    reveal_strlit("wasm");
    reveal_strlit("pdf");
    reveal_strlit("xml");
    reveal_strlit("wav");
    reveal_strlit("woff");
    reveal_strlit("woff2");
    reveal_strlit("ttf");
    assert("bz2"@.len() != "html"@.len());
    assert("bz2"@[0] != "htm"@[0]);
    assert("bz2"@[0] != "css"@[0]);
    assert("bz2"@.len() != "js"@.len());
    assert("bz2"@[0] != "mjs"@[0]);
    assert("bz2"@.len() != "adoc"@.len());
    assert("bz2"@.len() != "json"@.len());
    assert("bz2"@.len() != "toml"@.len());
    assert("bz2"@[0] != "php"@[0]);
    assert("bz2"@.len() != "md"@.len());
    assert("bz2"@[0] != "png"@[0]);
    assert("bz2"@[0] != "jpg"@[0]);
    assert("bz2"@.len() != "jpeg"@.len());
    assert("bz2"@[0] != "gif"@[0]);
    assert("bz2"@[1] != "bmp"@[1]);
    assert("bz2"@[0] != "svg"@[0]);
    assert("bz2"@[0] != "ico"@[0]);
    assert("bz2"@.len() != "wasm"@.len());
    assert("bz2"@[0] != "pdf"@[0]);
    assert("bz2"@[0] != "xml"@[0]);
    assert("bz2"@[0] != "wav"@[0]);
    assert("bz2"@.len() != "woff"@.len());
    assert("bz2"@.len() != "woff2"@.len());
    assert("bz2"@[0] != "ttf"@[0]);
}

proof fn lemma_type_of_gz()
    ensures
        known_type("gz"@) == Some("application/gzip"@),
{
    reveal_strlit("gz");
    reveal_strlit("html");
    reveal_strlit("htm");
    reveal_strlit("css");
    reveal_strlit("js");
    reveal_strlit("mjs");
    reveal_strlit("adoc");
    reveal_strlit("json");
    reveal_strlit("toml");
    reveal_strlit("php");
    reveal_strlit("md");
    reveal_strlit("png");
    reveal_strlit("jpg");
    reveal_strlit("jpeg");
    reveal_strlit("gif");
    reveal_strlit("bmp");
    reveal_strlit("svg");
    reveal_strlit("ico");
    reveal_strlit("wasm");
    reveal_strlit("pdf");
    reveal_strlit("xml");
    reveal_strlit("wav");
    reveal_strlit("woff");
    reveal_strlit("woff2");
    reveal_strlit("ttf");
    reveal_strlit("bz2");
    assert("gz"@.len() != "html"@.len());
    assert("gz"@.len() != "htm"@.len());
    assert("gz"@.len() != "css"@.len());
    assert("gz"@[0] != "js"@[0]);
    assert("gz"@.len() != "mjs"@.len());
    assert("gz"@.len() != "adoc"@.len());
    assert("gz"@.len() != "json"@.len());
    assert("gz"@.len() != "toml"@.len());
    assert("gz"@.len() != "php"@.len());
    assert("gz"@[0] != "md"@[0]);
    assert("gz"@.len() != "png"@.len());
    assert("gz"@.len() != "jpg"@.len());
    assert("gz"@.len() != "jpeg"@.len());
    assert("gz"@.len() != "gif"@.len());
    assert("gz"@.len() != "bmp"@.len());
    assert("gz"@.len() != "svg"@.len());
    assert("gz"@.len() != "ico"@.len());
    assert("gz"@.len() != "wasm"@.len());
    assert("gz"@.len() != "pdf"@.len());
    assert("gz"@.len() != "xml"@.len());
    assert("gz"@.len() != "wav"@.len());
    assert("gz"@.len() != "woff"@.len());
    assert("gz"@.len() != "woff2"@.len());
    assert("gz"@.len() != "ttf"@.len());
    assert("gz"@.len() != "bz2"@.len());
}

proof fn lemma_type_of_zip()
    ensures
        known_type("zip"@) == Some("application/zip"@),
{
    reveal_strlit("zip");
    reveal_strlit("html");
    reveal_strlit("htm");
    reveal_strlit("css");
    reveal_strlit("js");
    reveal_strlit("mjs");
    reveal_strlit("adoc");
    reveal_strlit("json");
    reveal_strlit("toml");
    reveal_strlit("php");
    reveal_strlit("md");
    reveal_strlit("png");
    reveal_strlit("jpg");
    reveal_strlit("jpeg");
    reveal_strlit("gif");
    reveal_strlit("bmp");
    reveal_strlit("svg");
    reveal_strlit("ico");
    reveal_strlit("wasm");
    reveal_strlit("pdf");
    reveal_strlit("xml");
    reveal_strlit("wav");
    reveal_strlit("woff");
    reveal_strlit("woff2");
    reveal_strlit("ttf");
    reveal_strlit("bz2");
    reveal_strlit("gz");
    assert("zip"@.len() != "html"@.len());
    assert("zip"@[0] != "htm"@[0]);
    assert("zip"@[0] != "css"@[0]);
    assert("zip"@.len() != "js"@.len());
    assert("zip"@[0] != "mjs"@[0]);
    assert("zip"@.len() != "adoc"@.len());
    assert("zip"@.len() != "json"@.len());
    assert("zip"@.len() != "toml"@.len());
    assert("zip"@[0] != "php"@[0]);
    assert("zip"@.len() != "md"@.len());
    assert("zip"@[0] != "png"@[0]);
    assert("zip"@[0] != "jpg"@[0]);
    assert("zip"@.len() != "jpeg"@.len());
    assert("zip"@[0] != "gif"@[0]);
    assert("zip"@[0] != "bmp"@[0]);
    assert("zip"@[0] != "svg"@[0]);
    assert("zip"@[0] != "ico"@[0]);
    assert("zip"@.len() != "wasm"@.len());
    assert("zip"@[0] != "pdf"@[0]);
    assert("zip"@[0] != "xml"@[0]);
    assert("zip"@[0] != "wav"@[0]);
    assert("zip"@.len() != "woff"@.len());
    assert("zip"@.len() != "woff2"@.len());
    assert("zip"@[0] != "ttf"@[0]);
    assert("zip"@[0] != "bz2"@[0]);
    assert("zip"@.len() != "gz"@.len());
}

proof fn lemma_type_of_ext_7z()
    ensures
        known_type("7z"@) == Some("application/x-7z-compressed"@),
{
    reveal_strlit("7z");
    reveal_strlit("html");
    reveal_strlit("htm");
    reveal_strlit("css");
    reveal_strlit("js");
    reveal_strlit("mjs");
    reveal_strlit("adoc");
    reveal_strlit("json");
    reveal_strlit("toml");
    reveal_strlit("php");
    reveal_strlit("md");
    reveal_strlit("png");
    reveal_strlit("jpg");
    reveal_strlit("jpeg");
    reveal_strlit("gif");
    reveal_strlit("bmp");
    reveal_strlit("svg");
    reveal_strlit("ico");
    reveal_strlit("wasm");
    reveal_strlit("pdf");
    reveal_strlit("xml");
    reveal_strlit("wav");
    reveal_strlit("woff");
    reveal_strlit("woff2");
    reveal_strlit("ttf");
    reveal_strlit("bz2");
    reveal_strlit("gz");
    reveal_strlit("zip");
    assert("7z"@.len() != "html"@.len());
    assert("7z"@.len() != "htm"@.len());
    assert("7z"@.len() != "css"@.len());
    assert("7z"@[0] != "js"@[0]);
    assert("7z"@.len() != "mjs"@.len());
    assert("7z"@.len() != "adoc"@.len());
    assert("7z"@.len() != "json"@.len());
    assert("7z"@.len() != "toml"@.len());
    assert("7z"@.len() != "php"@.len());
    assert("7z"@[0] != "md"@[0]);
    assert("7z"@.len() != "png"@.len());
    assert("7z"@.len() != "jpg"@.len());
    assert("7z"@.len() != "jpeg"@.len());
    assert("7z"@.len() != "gif"@.len());
    assert("7z"@.len() != "bmp"@.len());
    assert("7z"@.len() != "svg"@.len());
    assert("7z"@.len() != "ico"@.len());
    assert("7z"@.len() != "wasm"@.len());
    assert("7z"@.len() != "pdf"@.len());
    assert("7z"@.len() != "xml"@.len());
    assert("7z"@.len() != "wav"@.len());
    assert("7z"@.len() != "woff"@.len());
    assert("7z"@.len() != "woff2"@.len());
    assert("7z"@.len() != "ttf"@.len());
    assert("7z"@.len() != "bz2"@.len());
    assert("7z"@[0] != "gz"@[0]);
    assert("7z"@.len() != "zip"@.len());
}

proof fn lemma_type_of_rtf()
    ensures
        known_type("rtf"@) == Some("application/rtf"@),
{
    reveal_strlit("rtf");
    reveal_strlit("html");
    reveal_strlit("htm");
    reveal_strlit("css");
    reveal_strlit("js");
    reveal_strlit("mjs");
    reveal_strlit("adoc");
    reveal_strlit("json");
    reveal_strlit("toml");
    reveal_strlit("php");
    reveal_strlit("md");
    reveal_strlit("png");
    reveal_strlit("jpg");
    reveal_strlit("jpeg");
    reveal_strlit("gif");
    reveal_strlit("bmp");
    reveal_strlit("svg");
    reveal_strlit("ico");
    reveal_strlit("wasm");
    reveal_strlit("pdf");
    reveal_strlit("xml");
    reveal_strlit("wav");
    reveal_strlit("woff");
    reveal_strlit("woff2");
    reveal_strlit("ttf");
    reveal_strlit("bz2");
    reveal_strlit("gz");
    reveal_strlit("zip");
    reveal_strlit("7z");
    assert("rtf"@.len() != "html"@.len());
    assert("rtf"@[0] != "htm"@[0]);
    assert("rtf"@[0] != "css"@[0]);
    assert("rtf"@.len() != "js"@.len());
    assert("rtf"@[0] != "mjs"@[0]);
    assert("rtf"@.len() != "adoc"@.len());
    assert("rtf"@.len() != "json"@.len());
    assert("rtf"@.len() != "toml"@.len());
    assert("rtf"@[0] != "php"@[0]);
    assert("rtf"@.len() != "md"@.len());
    assert("rtf"@[0] != "png"@[0]);
    assert("rtf"@[0] != "jpg"@[0]);
    assert("rtf"@.len() != "jpeg"@.len());
    assert("rtf"@[0] != "gif"@[0]);
    assert("rtf"@[0] != "bmp"@[0]);
    assert("rtf"@[0] != "svg"@[0]);
    assert("rtf"@[0] != "ico"@[0]);
    assert("rtf"@.len() != "wasm"@.len());
    assert("rtf"@[0] != "pdf"@[0]);
    assert("rtf"@[0] != "xml"@[0]);
    assert("rtf"@[0] != "wav"@[0]);
    assert("rtf"@.len() != "woff"@.len());
    assert("rtf"@.len() != "woff2"@.len());
    assert("rtf"@[0] != "ttf"@[0]);
    assert("rtf"@[0] != "bz2"@[0]);
    assert("rtf"@.len() != "gz"@.len());
    assert("rtf"@[0] != "zip"@[0]);
    assert("rtf"@.len() != "7z"@.len());
}

proof fn lemma_type_of_doc()
    ensures
        known_type("doc"@) == Some("application/msword"@),
{
    reveal_strlit("doc");
    reveal_strlit("html");
    reveal_strlit("htm");
    reveal_strlit("css");
    reveal_strlit("js");
    reveal_strlit("mjs");
    reveal_strlit("adoc");
    reveal_strlit("json");
    reveal_strlit("toml");
    reveal_strlit("php");
    reveal_strlit("md");
    reveal_strlit("png");
    reveal_strlit("jpg");
    reveal_strlit("jpeg");
    reveal_strlit("gif");
    reveal_strlit("bmp");
    reveal_strlit("svg");
    reveal_strlit("ico");
    reveal_strlit("wasm");
    reveal_strlit("pdf");
    reveal_strlit("xml");
    reveal_strlit("wav");
    reveal_strlit("woff");
    reveal_strlit("woff2");
    reveal_strlit("ttf");
    reveal_strlit("bz2");
    reveal_strlit("gz");
    reveal_strlit("zip");
    reveal_strlit("7z");
    reveal_strlit("rtf");
    assert("doc"@.len() != "html"@.len());
    assert("doc"@[0] != "htm"@[0]);
    assert("doc"@[0] != "css"@[0]);
    assert("doc"@.len() != "js"@.len());
    assert("doc"@[0] != "mjs"@[0]);
    assert("doc"@.len() != "adoc"@.len());
    assert("doc"@.len() != "json"@.len());
    assert("doc"@.len() != "toml"@.len());
    assert("doc"@[0] != "php"@[0]);
    assert("doc"@.len() != "md"@.len());
    assert("doc"@[0] != "png"@[0]);
    assert("doc"@[0] != "jpg"@[0]);
    assert("doc"@.len() != "jpeg"@.len());
    assert("doc"@[0] != "gif"@[0]);
    assert("doc"@[0] != "bmp"@[0]);
    assert("doc"@[0] != "svg"@[0]);
    assert("doc"@[0] != "ico"@[0]);
    assert("doc"@.len() != "wasm"@.len());
    assert("doc"@[0] != "pdf"@[0]);
    assert("doc"@[0] != "xml"@[0]);
    assert("doc"@[0] != "wav"@[0]);
    assert("doc"@.len() != "woff"@.len());
    assert("doc"@.len() != "woff2"@.len());
    assert("doc"@[0] != "ttf"@[0]);
    assert("doc"@[0] != "bz2"@[0]);
    assert("doc"@.len() != "gz"@.len());
    assert("doc"@[0] != "zip"@[0]);
    assert("doc"@.len() != "7z"@.len());
    assert("doc"@[0] != "rtf"@[0]);
}

proof fn lemma_type_of_docx()
    ensures
        known_type("docx"@) == Some("application/vnd.openxmlformats-officedocument.wordprocessingml.document"@),
{
    reveal_strlit("docx");
    reveal_strlit("html");
    reveal_strlit("htm");
    reveal_strlit("css");
    reveal_strlit("js");
    reveal_strlit("mjs");
    reveal_strlit("adoc");
    reveal_strlit("json");
    reveal_strlit("toml");
    reveal_strlit("php");
    reveal_strlit("md");
    reveal_strlit("png");
    reveal_strlit("jpg");
    reveal_strlit("jpeg");
    reveal_strlit("gif");
    reveal_strlit("bmp");
    reveal_strlit("svg");
    reveal_strlit("ico");
    reveal_strlit("wasm");
    reveal_strlit("pdf");
    reveal_strlit("xml");
    reveal_strlit("wav");
    reveal_strlit("woff");
    reveal_strlit("woff2");
    reveal_strlit("ttf");
    reveal_strlit("bz2");
    reveal_strlit("gz");
    reveal_strlit("zip");
    reveal_strlit("7z");
    reveal_strlit("rtf");
    reveal_strlit("doc");
    assert("docx"@[0] != "html"@[0]);
    assert("docx"@.len() != "htm"@.len());
    assert("docx"@.len() != "css"@.len());
    assert("docx"@.len() != "js"@.len());
    assert("docx"@.len() != "mjs"@.len());
    assert("docx"@[0] != "adoc"@[0]);
    assert("docx"@[0] != "json"@[0]);
    assert("docx"@[0] != "toml"@[0]);
    assert("docx"@.len() != "php"@.len());
    assert("docx"@.len() != "md"@.len());
    assert("docx"@.len() != "png"@.len());
    assert("docx"@.len() != "jpg"@.len());
    assert("docx"@[0] != "jpeg"@[0]);
    assert("docx"@.len() != "gif"@.len());
    assert("docx"@.len() != "bmp"@.len());
    assert("docx"@.len() != "svg"@.len());
    assert("docx"@.len() != "ico"@.len());
    assert("docx"@[0] != "wasm"@[0]);
    assert("docx"@.len() != "pdf"@.len());
    assert("docx"@.len() != "xml"@.len());
    assert("docx"@.len() != "wav"@.len());
    assert("docx"@[0] != "woff"@[0]);
    assert("docx"@.len() != "woff2"@.len());
    assert("docx"@.len() != "ttf"@.len());
    assert("docx"@.len() != "bz2"@.len());
    assert("docx"@.len() != "gz"@.len());
    assert("docx"@.len() != "zip"@.len());
    assert("docx"@.len() != "7z"@.len());
    assert("docx"@.len() != "rtf"@.len());
    assert("docx"@.len() != "doc"@.len());
}

proof fn lemma_type_of_ppt()
    ensures
        known_type("ppt"@) == Some("application/vnd.ms-powerpoint"@),
{
    reveal_strlit("ppt");
    reveal_strlit("html");
    reveal_strlit("htm");
    reveal_strlit("css");
    reveal_strlit("js");
    reveal_strlit("mjs");
    reveal_strlit("adoc");
    reveal_strlit("json");
    reveal_strlit("toml");
    reveal_strlit("php");
    reveal_strlit("md");
    reveal_strlit("png");
    reveal_strlit("jpg");
    reveal_strlit("jpeg");
    reveal_strlit("gif");
    reveal_strlit("bmp");
    reveal_strlit("svg");
    reveal_strlit("ico");
    reveal_strlit("wasm");
    reveal_strlit("pdf");
    reveal_strlit("xml");
    reveal_strlit("wav");
    reveal_strlit("woff");
    reveal_strlit("woff2");
    reveal_strlit("ttf");
    reveal_strlit("bz2");
    reveal_strlit("gz");
    reveal_strlit("zip");
    reveal_strlit("7z");
    reveal_strlit("rtf");
    reveal_strlit("doc");
    reveal_strlit("docx");
    assert("ppt"@.len() != "html"@.len());
    assert("ppt"@[0] != "htm"@[0]);
    assert("ppt"@[0] != "css"@[0]);
    assert("ppt"@.len() != "js"@.len());
    assert("ppt"@[0] != "mjs"@[0]);
    assert("ppt"@.len() != "adoc"@.len());
    assert("ppt"@.len() != "json"@.len());
    assert("ppt"@.len() != "toml"@.len());
    assert("ppt"@[1] != "php"@[1]);
    assert("ppt"@.len() != "md"@.len());
    assert("ppt"@[1] != "png"@[1]);
    assert("ppt"@[0] != "jpg"@[0]);
    assert("ppt"@.len() != "jpeg"@.len());
    assert("ppt"@[0] != "gif"@[0]);
    assert("ppt"@[0] != "bmp"@[0]);
    assert("ppt"@[0] != "svg"@[0]);
    assert("ppt"@[0] != "ico"@[0]);
    assert("ppt"@.len() != "wasm"@.len());
    assert("ppt"@[1] != "pdf"@[1]);
    assert("ppt"@[0] != "xml"@[0]);
    assert("ppt"@[0] != "wav"@[0]);
    assert("ppt"@.len() != "woff"@.len());
    assert("ppt"@.len() != "woff2"@.len());
    assert("ppt"@[0] != "ttf"@[0]);
    assert("ppt"@[0] != "bz2"@[0]);
    assert("ppt"@.len() != "gz"@.len());
    assert("ppt"@[0] != "zip"@[0]);
    assert("ppt"@.len() != "7z"@.len());
    assert("ppt"@[0] != "rtf"@[0]);
    assert("ppt"@[0] != "doc"@[0]);
    assert("ppt"@.len() != "docx"@.len());
}

proof fn lemma_type_of_pptx()
    ensures
        known_type("pptx"@) == Some("application/vnd.openxmlformats-officedocument.presentationml.presentation"@),
{
    reveal_strlit("pptx");
    reveal_strlit("html");
    reveal_strlit("htm");
    reveal_strlit("css");
    reveal_strlit("js");
    reveal_strlit("mjs");
    reveal_strlit("adoc");
    reveal_strlit("json");
    reveal_strlit("toml");
    reveal_strlit("php");
    reveal_strlit("md");
    reveal_strlit("png");
    reveal_strlit("jpg");
    reveal_strlit("jpeg");
    reveal_strlit("gif");
    reveal_strlit("bmp");
    reveal_strlit("svg");
    reveal_strlit("ico");
    reveal_strlit("wasm");
    reveal_strlit("pdf");
    reveal_strlit("xml");
    reveal_strlit("wav");
    reveal_strlit("woff");
    reveal_strlit("woff2");
    reveal_strlit("ttf");
    reveal_strlit("bz2");
    reveal_strlit("gz");
    reveal_strlit("zip");
    reveal_strlit("7z");
    reveal_strlit("rtf");
    reveal_strlit("doc");
    reveal_strlit("docx");
    reveal_strlit("ppt");
    assert("pptx"@[0] != "html"@[0]);
    assert("pptx"@.len() != "htm"@.len());
    assert("pptx"@.len() != "css"@.len());
    assert("pptx"@.len() != "js"@.len());
    assert("pptx"@.len() != "mjs"@.len());
    assert("pptx"@[0] != "adoc"@[0]);
    assert("pptx"@[0] != "json"@[0]);
    assert("pptx"@[0] != "toml"@[0]);
    assert("pptx"@.len() != "php"@.len());
    assert("pptx"@.len() != "md"@.len());
    assert("pptx"@.len() != "png"@.len());
    assert("pptx"@.len() != "jpg"@.len());
    assert("pptx"@[0] != "jpeg"@[0]);
    assert("pptx"@.len() != "gif"@.len());
    assert("pptx"@.len() != "bmp"@.len());
    assert("pptx"@.len() != "svg"@.len());
    assert("pptx"@.len() != "ico"@.len());
    assert("pptx"@[0] != "wasm"@[0]);
    assert("pptx"@.len() != "pdf"@.len());
    assert("pptx"@.len() != "xml"@.len());
    assert("pptx"@.len() != "wav"@.len());
    assert("pptx"@[0] != "woff"@[0]);
    assert("pptx"@.len() != "woff2"@.len());
    assert("pptx"@.len() != "ttf"@.len());
    assert("pptx"@.len() != "bz2"@.len());
    assert("pptx"@.len() != "gz"@.len());
    assert("pptx"@.len() != "zip"@.len());
    assert("pptx"@.len() != "7z"@.len());
    assert("pptx"@.len() != "rtf"@.len());
    assert("pptx"@.len() != "doc"@.len());
    assert("pptx"@[0] != "docx"@[0]);
    assert("pptx"@.len() != "ppt"@.len());
}

proof fn lemma_type_of_xls()
    ensures
        known_type("xls"@) == Some("application/vnd.ms-excel"@),
{
    reveal_strlit("xls");
    reveal_strlit("html");
    reveal_strlit("htm");
    reveal_strlit("css");
    reveal_strlit("js");
    reveal_strlit("mjs");
    reveal_strlit("adoc");
    reveal_strlit("json");
    reveal_strlit("toml");
    reveal_strlit("php");
    reveal_strlit("md");
    reveal_strlit("png");
    reveal_strlit("jpg");
    reveal_strlit("jpeg");
    reveal_strlit("gif");
    reveal_strlit("bmp");
    reveal_strlit("svg");
    reveal_strlit("ico");
    reveal_strlit("wasm");
    reveal_strlit("pdf");
    reveal_strlit("xml");
    reveal_strlit("wav");
    reveal_strlit("woff");
    reveal_strlit("woff2");
    reveal_strlit("ttf");
    reveal_strlit("bz2");
    reveal_strlit("gz");
    reveal_strlit("zip");
    reveal_strlit("7z");
    reveal_strlit("rtf");
    reveal_strlit("doc");
    reveal_strlit("docx");
    reveal_strlit("ppt");
    reveal_strlit("pptx");
    assert("xls"@.len() != "html"@.len());
    assert("xls"@[0] != "htm"@[0]);
    assert("xls"@[0] != "css"@[0]);
    assert("xls"@.len() != "js"@.len());
    assert("xls"@[0] != "mjs"@[0]);
    assert("xls"@.len() != "adoc"@.len());
    assert("xls"@.len() != "json"@.len());
    assert("xls"@.len() != "toml"@.len());
    assert("xls"@[0] != "php"@[0]);
    assert("xls"@.len() != "md"@.len());
    assert("xls"@[0] != "png"@[0]);
    assert("xls"@[0] != "jpg"@[0]);
    assert("xls"@.len() != "jpeg"@.len());
    assert("xls"@[0] != "gif"@[0]);
    assert("xls"@[0] != "bmp"@[0]);
    assert("xls"@[0] != "svg"@[0]);
    assert("xls"@[0] != "ico"@[0]);
    assert("xls"@.len() != "wasm"@.len());
    assert("xls"@[0] != "pdf"@[0]);
    assert("xls"@[1] != "xml"@[1]);
    assert("xls"@[0] != "wav"@[0]);
    assert("xls"@.len() != "woff"@.len());
    assert("xls"@.len() != "woff2"@.len());
    assert("xls"@[0] != "ttf"@[0]);
    assert("xls"@[0] != "bz2"@[0]);
    assert("xls"@.len() != "gz"@.len());
    assert("xls"@[0] != "zip"@[0]);
    assert("xls"@.len() != "7z"@.len());
    assert("xls"@[0] != "rtf"@[0]);
    assert("xls"@[0] != "doc"@[0]);
    assert("xls"@.len() != "docx"@.len());
    assert("xls"@[0] != "ppt"@[0]);
    assert("xls"@.len() != "pptx"@.len());
}

proof fn lemma_type_of_xlsx()
    ensures
        known_type("xlsx"@) == Some("application/vnd.openxmlformats-officedocument.spreadsheetml.sheet"@),
{
    reveal_strlit("xlsx");
    reveal_strlit("html");
    reveal_strlit("htm");
    reveal_strlit("css");
    reveal_strlit("js");
    reveal_strlit("mjs");
    reveal_strlit("adoc");
    reveal_strlit("json");
    reveal_strlit("toml");
    reveal_strlit("php");
    reveal_strlit("md");
    reveal_strlit("png");
    reveal_strlit("jpg");
    reveal_strlit("jpeg");
    reveal_strlit("gif");
    reveal_strlit("bmp");
    reveal_strlit("svg");
    reveal_strlit("ico");
    reveal_strlit("wasm");
    reveal_strlit("pdf");
    reveal_strlit("xml");
    reveal_strlit("wav");
    reveal_strlit("woff");
    reveal_strlit("woff2");
    reveal_strlit("ttf");
    reveal_strlit("bz2");
    reveal_strlit("gz");
    reveal_strlit("zip");
    reveal_strlit("7z");
    reveal_strlit("rtf");
    reveal_strlit("doc");
    reveal_strlit("docx");
    reveal_strlit("ppt");
    reveal_strlit("pptx");
    reveal_strlit("xls");
    assert("xlsx"@[0] != "html"@[0]);
    assert("xlsx"@.len() != "htm"@.len());
    assert("xlsx"@.len() != "css"@.len());
    assert("xlsx"@.len() != "js"@.len());
    assert("xlsx"@.len() != "mjs"@.len());
    assert("xlsx"@[0] != "adoc"@[0]);
    assert("xlsx"@[0] != "json"@[0]);
    assert("xlsx"@[0] != "toml"@[0]);
    assert("xlsx"@.len() != "php"@.len());
    assert("xlsx"@.len() != "md"@.len());
    assert("xlsx"@.len() != "png"@.len());
    assert("xlsx"@.len() != "jpg"@.len());
    assert("xlsx"@[0] != "jpeg"@[0]);
    assert("xlsx"@.len() != "gif"@.len());
    assert("xlsx"@.len() != "bmp"@.len());
    assert("xlsx"@.len() != "svg"@.len());
    assert("xlsx"@.len() != "ico"@.len());
    assert("xlsx"@[0] != "wasm"@[0]);
    assert("xlsx"@.len() != "pdf"@.len());
    assert("xlsx"@.len() != "xml"@.len());
    assert("xlsx"@.len() != "wav"@.len());
    assert("xlsx"@[0] != "woff"@[0]);
    assert("xlsx"@.len() != "woff2"@.len());
    assert("xlsx"@.len() != "ttf"@.len());
    assert("xlsx"@.len() != "bz2"@.len());
    assert("xlsx"@.len() != "gz"@.len());
    assert("xlsx"@.len() != "zip"@.len());
    assert("xlsx"@.len() != "7z"@.len());
    assert("xlsx"@.len() != "rtf"@.len());
    assert("xlsx"@.len() != "doc"@.len());
    assert("xlsx"@[0] != "docx"@[0]);
    assert("xlsx"@.len() != "ppt"@.len());
    assert("xlsx"@[0] != "pptx"@[0]);
    assert("xlsx"@.len() != "xls"@.len());
}

/// The registered content types, extension by extension.
pub proof fn law_extension_table()
    ensures
        known_type("html"@) == Some("text/html"@),
        known_type("htm"@) == Some("text/html"@),
        known_type("css"@) == Some("text/css"@),
        known_type("js"@) == Some("application/javascript"@),
        known_type("mjs"@) == Some("application/javascript"@),
        known_type("adoc"@) == Some("text/asciidoc"@),
        known_type("json"@) == Some("application/json"@),
        known_type("toml"@) == Some("text/plain"@),
        known_type("php"@) == Some("application/x-httpd-php"@),
        known_type("md"@) == Some("text/markdown"@),
        known_type("png"@) == Some("image/png"@),
        known_type("jpg"@) == Some("image/jpeg"@),
        known_type("jpeg"@) == Some("image/jpeg"@),
        known_type("gif"@) == Some("image/gif"@),
        known_type("bmp"@) == Some("image/bmp"@),
        known_type("svg"@) == Some("image/svg+xml"@),
        known_type("ico"@) == Some("image/x-icon"@),
        known_type("wasm"@) == Some("application/wasm"@),
        known_type("pdf"@) == Some("application/pdf"@),
        known_type("xml"@) == Some("application/xml"@),
        known_type("wav"@) == Some("audio/wav"@),
        known_type("woff"@) == Some("font/woff"@),
        known_type("woff2"@) == Some("font/woff2"@),
        known_type("ttf"@) == Some("font/ttf"@),
        known_type("bz2"@) == Some("application/x-bzip2"@),
        known_type("gz"@) == Some("application/gzip"@),
        known_type("zip"@) == Some("application/zip"@),
        known_type("7z"@) == Some("application/x-7z-compressed"@),
        known_type("rtf"@) == Some("application/rtf"@),
        known_type("doc"@) == Some("application/msword"@),
        known_type("docx"@) == Some("application/vnd.openxmlformats-officedocument.wordprocessingml.document"@),
        known_type("ppt"@) == Some("application/vnd.ms-powerpoint"@),
        known_type("pptx"@) == Some("application/vnd.openxmlformats-officedocument.presentationml.presentation"@),
        known_type("xls"@) == Some("application/vnd.ms-excel"@),
        known_type("xlsx"@) == Some("application/vnd.openxmlformats-officedocument.spreadsheetml.sheet"@),
{
    lemma_type_of_html();
    lemma_type_of_htm();
    lemma_type_of_css();
    lemma_type_of_js();
    lemma_type_of_mjs();
    lemma_type_of_adoc();
    lemma_type_of_json();
    lemma_type_of_toml();
    lemma_type_of_php();
    lemma_type_of_md();
    lemma_type_of_png();
    lemma_type_of_jpg();
    lemma_type_of_jpeg();
    lemma_type_of_gif();
    lemma_type_of_bmp();
    lemma_type_of_svg();
    lemma_type_of_ico();
    lemma_type_of_wasm();
    lemma_type_of_pdf();
    lemma_type_of_xml();
    lemma_type_of_wav();
    lemma_type_of_woff();
    lemma_type_of_woff2();
    lemma_type_of_ttf();
    lemma_type_of_bz2();
    lemma_type_of_gz();
    lemma_type_of_zip();
    lemma_type_of_ext_7z();
    lemma_type_of_rtf();
    lemma_type_of_doc();
    lemma_type_of_docx();
    lemma_type_of_ppt();
    lemma_type_of_pptx();
    lemma_type_of_xls();
    lemma_type_of_xlsx();
}

/// Only the registered extensions have a content type.
pub proof fn law_only_registered_extensions(e: Seq<char>)
    ensures
        known_type(e) is Some ==> (e == "html"@ || e == "htm"@ || e == "css"@ || e == "js"@ || e == "mjs"@ || e == "adoc"@ || e == "json"@ || e == "toml"@ || e == "php"@ || e == "md"@ || e == "png"@ || e == "jpg"@ || e == "jpeg"@ || e == "gif"@ || e == "bmp"@ || e == "svg"@ || e == "ico"@ || e == "wasm"@ || e == "pdf"@ || e == "xml"@ || e == "wav"@ || e == "woff"@ || e == "woff2"@ || e == "ttf"@ || e == "bz2"@ || e == "gz"@ || e == "zip"@ || e == "7z"@ || e == "rtf"@ || e == "doc"@ || e == "docx"@ || e == "ppt"@ || e == "pptx"@ || e == "xls"@ || e == "xlsx"@),
{
}

/// The last component of a path, if it is a name.
pub open spec fn file_name(path: Seq<char>) -> Option<Seq<char>> {
    let cs = components(path);
    if cs.len() > 0 && cs.last() is Normal {
        Some(cs.last()->Normal_0)
    } else {
        None
    }
}

/// The index of the last `.` in `s`, if any.
pub open spec fn last_dot(s: Seq<char>) -> Option<int>
    decreases s.len(),
{
    if s.len() == 0 {
        None
    } else if s.last() == '.' {
        Some(s.len() - 1)
    } else {
        last_dot(s.drop_last())
    }
}

/// The extension of a file name: what follows its last `.`, unless that dot
/// is the first character or there is none.
pub open spec fn name_extension(name: Seq<char>) -> Option<Seq<char>> {
    match last_dot(name) {
        Some(i) => if i > 0 { Some(name.subrange(i + 1, name.len() as int)) } else { None },
        None => None,
    }
}

/// The extension of a path's file name.
pub open spec fn extension(path: Seq<char>) -> Option<Seq<char>> {
    match file_name(path) {
        Some(name) => name_extension(name),
        None => None,
    }
}

/// The content type that a path's extension determines, if any.
pub open spec fn type_by_extension(path: Seq<char>) -> Option<Seq<char>> {
    match extension(path) {
        Some(e) => known_type(e),
        None => None,
    }
}

/// Whether the examined leading bytes are all ASCII.
pub open spec fn ascii_head(head: Seq<u8>) -> bool {
    forall|i: int| 0 <= i < head.len() && i < ASCII_FAILURES ==> head[i] < 0x80
}

/// The content type of a file that its extension does not determine: plain
/// text if it could be read and its first bytes are ASCII, binary otherwise.
pub open spec fn sniffed_type(head: Option<Seq<u8>>) -> Seq<char> {
    match head {
        Some(h) => if ascii_head(h) { "text/plain"@ } else { "application/octet-stream"@ },
        None => "application/octet-stream"@,
    }
}

fn same(ext: &Vec<char>, lit: &str) -> (r: bool)
    ensures
        r == (ext@ == lit@),
{
    let l = chars_of(lit);
    chars_equal(ext, &l)
}

/// The content type registered for an extension.
pub fn mime_for_extension(ext: &Vec<char>) -> (r: Option<&'static str>)
    ensures
        r matches Some(t) ==> known_type(ext@) == Some(t@),
        r is None ==> known_type(ext@) is None,
{
    if same(ext, "html") || same(ext, "htm") {
        Some("text/html")
    } else if same(ext, "css") {
        Some("text/css")
    } else if same(ext, "js") || same(ext, "mjs") {
        Some("application/javascript")
    } else if same(ext, "adoc") {
        Some("text/asciidoc")
    } else if same(ext, "json") {
        Some("application/json")
    } else if same(ext, "toml") {
        Some("text/plain")
    } else if same(ext, "php") {
        Some("application/x-httpd-php")
    } else if same(ext, "md") {
        Some("text/markdown")
    } else if same(ext, "png") {
        Some("image/png")
    } else if same(ext, "jpg") || same(ext, "jpeg") {
        Some("image/jpeg")
    } else if same(ext, "gif") {
        Some("image/gif")
    } else if same(ext, "bmp") {
        Some("image/bmp")
    } else if same(ext, "svg") {
        Some("image/svg+xml")
    } else if same(ext, "ico") {
        Some("image/x-icon")
    } else if same(ext, "wasm") {
        Some("application/wasm")
    } else if same(ext, "pdf") {
        Some("application/pdf")
    } else if same(ext, "xml") {
        Some("application/xml")
    } else if same(ext, "wav") {
        Some("audio/wav")
    } else if same(ext, "woff") {
        Some("font/woff")
    } else if same(ext, "woff2") {
        Some("font/woff2")
    } else if same(ext, "ttf") {
        Some("font/ttf")
    } else if same(ext, "bz2") {
        Some("application/x-bzip2")
    } else if same(ext, "gz") {
        Some("application/gzip")
    } else if same(ext, "zip") {
        Some("application/zip")
    } else if same(ext, "7z") {
        Some("application/x-7z-compressed")
    } else if same(ext, "rtf") {
        Some("application/rtf")
    } else if same(ext, "doc") {
        Some("application/msword")
    } else if same(ext, "docx") {
        Some("application/vnd.openxmlformats-officedocument.wordprocessingml.document")
    } else if same(ext, "ppt") {
        Some("application/vnd.ms-powerpoint")
    } else if same(ext, "pptx") {
        Some("application/vnd.openxmlformats-officedocument.presentationml.presentation")
    } else if same(ext, "xls") {
        Some("application/vnd.ms-excel")
    } else if same(ext, "xlsx") {
        Some("application/vnd.openxmlformats-officedocument.spreadsheetml.sheet")
    } else {
        None
    }
}

/// The extension of a path's file name.
pub fn path_extension(path: &str) -> (r: Option<Vec<char>>)
    ensures
        r matches Some(e) ==> extension(path@) == Some(e@),
        r is None ==> extension(path@) is None,
{
    let cs = path_components(path);
    let n = cs.len();
    if n == 0 {
        return None;
    }
    assert(parts_of(cs@).last() == cs@[n - 1]@);
    match &cs[n - 1] {
        Component::Normal(name) => {
            let mut k = name.len();
            assert(name@.subrange(0, k as int) =~= name@);
            while k > 0 && name[k - 1] != '.'
                invariant
                    k <= name@.len(),
                    last_dot(name@.subrange(0, k as int)) == last_dot(name@),
                decreases k,
            {
                assert(name@.subrange(0, k as int).drop_last() =~= name@.subrange(0, k - 1));
                k -= 1;
            }
            if k <= 1 {
                proof {
                    if k == 1 {
                        assert(last_dot(name@.subrange(0, 1)) == Some(0int));
                    } else {
                        assert(name@.subrange(0, 0) =~= Seq::<char>::empty());
                    }
                }
                None
            } else {
                assert(last_dot(name@.subrange(0, k as int)) == Some(k - 1));
                let mut e: Vec<char> = Vec::new();
                let mut i = k;
                while i < name.len()
                    invariant
                        k <= i <= name@.len(),
                        e@ == name@.subrange(k as int, i as int),
                    decreases name@.len() - i,
                {
                    e.push(name[i]);
                    assert(name@.subrange(k as int, i as int).push(name@[i as int])
                        =~= name@.subrange(k as int, i + 1));
                    i += 1;
                }
                Some(e)
            }
        },
        _ => None,
    }
}

/// The content type that a path's extension determines, if any.
pub fn known_mime_type(path: &str) -> (r: Option<&'static str>)
    ensures
        r matches Some(t) ==> type_by_extension(path@) == Some(t@),
        r is None ==> type_by_extension(path@) is None,
{
    match path_extension(path) {
        Some(e) => mime_for_extension(&e),
        None => None,
    }
}

fn all_ascii(h: &[u8]) -> (r: bool)
    ensures
        r == ascii_head(h@),
{
    let n = if h.len() < ASCII_FAILURES { h.len() } else { ASCII_FAILURES };
    for i in 0..n
        invariant
            n <= h@.len(),
            n <= ASCII_FAILURES,
            n == h@.len() || n == ASCII_FAILURES,
            forall|k: int| 0 <= k < i ==> h@[k] < 0x80,
    {
        if h[i] >= 0x80 {
            assert(h@[i as int] >= 0x80);
            return false;
        }
    }
    true
}

/// The content type of a file whose extension says nothing, from its first
/// bytes (`None` when the file could not be opened).
pub fn determine_mime_type(head: Option<&[u8]>) -> (r: &'static str)
    ensures
        r@ == sniffed_type(match head { Some(h) => Some(h@), None => None }),
{
    match head {
        None => "application/octet-stream",
        Some(h) => if all_ascii(h) { "text/plain" } else { "application/octet-stream" },
    }
}

/// The content type of the file at `path`: by its extension when that is a
/// known one, otherwise sniffed from `head`, the file's first bytes (`None`
/// when it could not be opened).
pub fn mime_type(path: &str, head: Option<&[u8]>) -> (r: &'static str)
    ensures
        type_by_extension(path@) matches Some(t) ==> r@ == t,
        type_by_extension(path@) is None ==> r@ == sniffed_type(
            match head { Some(h) => Some(h@), None => None },
        ),
{
    match known_mime_type(path) {
        Some(t) => t,
        None => determine_mime_type(head),
    }
}

} // verus!
