//! The embedded-assets worker: the URLs of the bundled SQLite files (blob
//! URLs, or `data:` URLs on Firefox), and the bootstrap script of the worker
//! that loads them.
//!
//! The bootstrap maps the bundled file names to their blob URLs, wraps
//! `importScripts`, `fetch` and `Worker` so that the SQLite scripts load the
//! bundled copies, and then loads the worker script (with `import` on
//! Firefox, `importScripts` elsewhere).

use vstd::prelude::*;
use vstd::string::StringExecFns;

use crate::modules::sqlite_core::text::{base64, push_base64};

verus! {

/// The URLs of the bundled SQLite files.
pub struct EmbeddedAssets {
    worker_url: String,
    js_url: String,
    proxy_url: String,
    wasm_url: String,
}

impl EmbeddedAssets {
    /// The URL of `sqlite3-worker1.js`.
    pub closed spec fn worker(&self) -> Seq<char> {
        self.worker_url@
    }

    /// The URL of `sqlite3.js`.
    pub closed spec fn js(&self) -> Seq<char> {
        self.js_url@
    }

    /// The URL of `sqlite3-opfs-async-proxy.js`.
    pub closed spec fn proxy(&self) -> Seq<char> {
        self.proxy_url@
    }

    /// The URL of `sqlite3.wasm`.
    pub closed spec fn wasm(&self) -> Seq<char> {
        self.wasm_url@
    }

    /// The assets behind the given URLs.
    pub fn new(worker_url: String, js_url: String, proxy_url: String, wasm_url: String) -> (a: Self)
        ensures
            a.worker() == worker_url@,
            a.js() == js_url@,
            a.proxy() == proxy_url@,
            a.wasm() == wasm_url@,
    {
        EmbeddedAssets { worker_url, js_url, proxy_url, wasm_url }
    }

    /// The URL of the main worker script.
    pub fn worker_url(&self) -> (s: &str)
        ensures
            s@ == self.worker(),
    {
        self.worker_url.as_str()
    }

    /// The URL of `sqlite3.js`.
    pub fn js_url(&self) -> (s: &str)
        ensures
            s@ == self.js(),
    {
        self.js_url.as_str()
    }

    /// The URL of the OPFS proxy.
    pub fn proxy_url(&self) -> (s: &str)
        ensures
            s@ == self.proxy(),
    {
        self.proxy_url.as_str()
    }

    /// The URL of the WASM binary.
    pub fn wasm_url(&self) -> (s: &str)
        ensures
            s@ == self.wasm(),
    {
        self.wasm_url.as_str()
    }
}

/// The bootstrap up to the URL of `sqlite3.js` in the file map.
pub const BOOTSTRAP_HEAD: &'static str = "   \n    // MAPEAMENTO DE TODOS OS ARQUIVOS\n    const FILES = {\n        'sqlite3.js': '";

/// Between the URLs of `sqlite3.js` and `sqlite3.wasm`.
pub const BOOTSTRAP_AFTER_JS: &'static str = "',\n        'sqlite3.wasm': '";

/// Between the URLs of `sqlite3.wasm` and the OPFS proxy.
pub const BOOTSTRAP_AFTER_WASM: &'static str = "',\n        'sqlite3-opfs-async-proxy.js': '";

/// Between the URLs of the OPFS proxy and the worker script.
pub const BOOTSTRAP_AFTER_PROXY: &'static str = "',   \n        'sqlite3-worker1.js': '";

/// From the end of the file map to the loader call (the wrapped
/// `importScripts`, `fetch` and `Worker`).
pub const BOOTSTRAP_AFTER_WORKER: &'static str = "'\n    };   \n    \n    console.log('📦 FILES mapeados:', FILES);\n    \n    const originalImportScripts = importScripts;\n    importScripts = function(...urls) {\n        console.log('🔄 importScripts chamado com:', urls);\n        const mapped = urls.map(url => {\n            console.log('  ↪ mapeando:', url, '→', FILES[url] || url);\n            return FILES[url] || url;\n        });\n        console.log('  ✅ URLs mapeadas:', mapped);\n        return originalImportScripts.apply(this, mapped);\n    };\n    \n    const originalFetch = fetch;\n    fetch = function(url, options) {\n        const mappedUrl = FILES[url] || url;\n        return originalFetch.call(this, mappedUrl, options);\n    };\n    \n    const originalWorker = Worker;\n    Worker = function(url, options) {\n        const mappedUrl = FILES[url] || url;\n        return new originalWorker(mappedUrl, options);\n    };\n    \n    ";

/// Between the loader's name and the worker script's URL.
pub const BOOTSTRAP_AFTER_LOADER: &'static str = "('";

/// The end of the bootstrap.
pub const BOOTSTRAP_TAIL: &'static str = "');\n    ";

/// How the bundled files are turned into URLs.
pub enum AssetUrlKind {
    /// `blob:` URLs of in-memory blobs.
    Blob,
    /// `data:` URLs that carry the file itself, base64-encoded.
    Data,
}

/// Firefox gets `data:` URLs, every other browser `blob:` URLs.
pub open spec fn url_kind_for(firefox: bool) -> AssetUrlKind {
    if firefox {
        AssetUrlKind::Data
    } else {
        AssetUrlKind::Blob
    }
}

/// The kind of URL the bundled files get in this browser.
pub fn asset_url_kind(firefox: bool) -> (k: AssetUrlKind)
    ensures
        k == url_kind_for(firefox),
{
    if firefox {
        AssetUrlKind::Data
    } else {
        AssetUrlKind::Blob
    }
}

/// The MIME type of the bundled JavaScript files.
pub const JAVASCRIPT_MIME: &'static str = "application/javascript";

/// The MIME type of `sqlite3.wasm`.
pub const WASM_MIME: &'static str = "application/wasm";

/// The `data:` URL of `data` with MIME type `mime`:
/// `data:<mime>;base64,<base64 of data>`.
pub open spec fn data_url_of(mime: Seq<char>, data: Seq<u8>) -> Seq<char> {
    "data:"@ + mime + ";base64,"@ + base64(data)
}

/// Builds the `data:` URL of a bundled file.
pub fn data_url(mime: &str, data: &[u8]) -> (u: String)
    ensures
        u@ == data_url_of(mime@, data@),
{
    let mut u = String::from_str("data:");
    u.append(mime);
    u.append(";base64,");
    push_base64(&mut u, data);
    u
}

/// The worker bootstrap: its source text and the MIME type of its blob.
pub struct WorkerBootstrap {
    pub source: String,
    pub mime_type: &'static str,
}

/// The loader the bootstrap calls on the worker script.
pub open spec fn loader_name(firefox: bool) -> Seq<char> {
    if firefox {
        "import"@
    } else {
        "importScripts"@
    }
}

/// The MIME type of the bootstrap blob: Firefox needs `text/javascript`.
pub open spec fn bootstrap_mime(firefox: bool) -> Seq<char> {
    if firefox {
        "text/javascript"@
    } else {
        "application/javascript"@
    }
}

/// The bootstrap source for `assets`.
pub open spec fn bootstrap_source(assets: EmbeddedAssets, firefox: bool) -> Seq<char> {
    BOOTSTRAP_HEAD@ + assets.js() + BOOTSTRAP_AFTER_JS@ + assets.wasm() + BOOTSTRAP_AFTER_WASM@
        + assets.proxy() + BOOTSTRAP_AFTER_PROXY@ + assets.worker() + BOOTSTRAP_AFTER_WORKER@
        + loader_name(firefox) + BOOTSTRAP_AFTER_LOADER@ + assets.worker() + BOOTSTRAP_TAIL@
}

/// The bootstrap of the embedded worker for `assets`; the caller turns it
/// into a blob URL and starts the worker from it.
pub fn create_embedded_worker(assets: &EmbeddedAssets, firefox: bool) -> (b: WorkerBootstrap)
    ensures
        b.source@ == bootstrap_source(*assets, firefox),
        b.mime_type@ == bootstrap_mime(firefox),
{
    let mut source = String::from_str(BOOTSTRAP_HEAD);
    source.append(assets.js_url());
    source.append(BOOTSTRAP_AFTER_JS);
    source.append(assets.wasm_url());
    source.append(BOOTSTRAP_AFTER_WASM);
    source.append(assets.proxy_url());
    source.append(BOOTSTRAP_AFTER_PROXY);
    source.append(assets.worker_url());
    source.append(BOOTSTRAP_AFTER_WORKER);
    source.append(if firefox {
        "import"
    } else {
        "importScripts"
    });
    source.append(BOOTSTRAP_AFTER_LOADER);
    source.append(assets.worker_url());
    source.append(BOOTSTRAP_TAIL);
    let mime_type = if firefox {
        "text/javascript"
    } else {
        "application/javascript"
    };
    WorkerBootstrap { source, mime_type }
}

} // verus!
