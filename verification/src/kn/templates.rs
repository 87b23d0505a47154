//! Files a new function directory starts with, for each runtime.

use crate::text::{concat3, decimal, decimal_text};
use vstd::prelude::*;

verus! {

/// `tests/test_func.py` of a Python function.
pub const PYTHON_TEST_TEMPLATE: &'static str = r##"from function.func import new


def test_new():
    assert new() is not None
"##;

/// `function/app.py` of a Python function: the HTTP server around the handler.
pub const PYTHON_APP_TEMPLATE: &'static str = r##"import asyncio
import json
import os
import traceback
from http.server import BaseHTTPRequestHandler, ThreadingHTTPServer

from function.func import new


PORT = int(os.environ.get("PORT", "8080"))


async def call_function(function, method, path, headers, body):
    response = {
        "status": 200,
        "headers": [(b"content-type", b"application/json")],
        "body": bytearray(),
    }
    received = False

    async def receive():
        nonlocal received
        if received:
            return {"type": "http.disconnect"}
        received = True
        return {"type": "http.request", "body": body, "more_body": False}

    async def send(message):
        if message["type"] == "http.response.start":
            response["status"] = int(message.get("status", 200))
            response["headers"] = message.get("headers", [])
        elif message["type"] == "http.response.body":
            response["body"].extend(message.get("body", b""))

    scope = {
        "type": "http",
        "asgi": {"version": "3.0"},
        "http_version": "1.1",
        "method": method,
        "scheme": "http",
        "path": "/" if path == "/invoke" else path,
        "raw_path": path.encode("utf-8"),
        "query_string": b"",
        "headers": headers,
        "server": ("0.0.0.0", PORT),
        "client": ("0.0.0.0", 0),
        "minik8s": {
            "namespace": os.environ.get("FUNCTION_NAMESPACE", "default"),
            "name": os.environ.get("FUNCTION_NAME", ""),
        },
    }
    result = function.handle(scope, receive, send)
    if asyncio.iscoroutine(result):
        await result
    return response


class Handler(BaseHTTPRequestHandler):
    def do_GET(self):
        if self.path in ("/healthz", "/health/liveness", "/health/readiness"):
            self.send_json({"ok": True})
            return
        self.forward()

    def do_POST(self):
        self.forward()

    def forward(self):
        length = int(self.headers.get("content-length", "0"))
        body = self.rfile.read(length) if length else b""
        headers = [
            (key.lower().encode("latin-1"), value.encode("latin-1"))
            for key, value in self.headers.items()
        ]
        try:
            response = asyncio.run(
                call_function(self.server.function, self.command, self.path, headers, body)
            )
            self.send_response(response["status"])
            payload = bytes(response["body"])
            has_length = False
            for name, value in response["headers"]:
                header = name.decode("latin-1")
                if header.lower() == "content-length":
                    has_length = True
                self.send_header(header, value.decode("latin-1"))
            if not has_length:
                self.send_header("content-length", str(len(payload)))
            self.end_headers()
            self.wfile.write(payload)
        except Exception as exc:
            self.send_json({"error": str(exc), "traceback": traceback.format_exc()}, status=500)

    def send_json(self, value, status=200):
        payload = json.dumps(value).encode("utf-8")
        self.send_response(status)
        self.send_header("content-type", "application/json")
        self.send_header("content-length", str(len(payload)))
        self.end_headers()
        self.wfile.write(payload)

    def log_message(self, format, *args):
        return


def main():
    server = ThreadingHTTPServer(("0.0.0.0", PORT), Handler)
    server.function = new()
    server.serve_forever()


if __name__ == "__main__":
    main()
"##;

/// `src/function.rs` of a Rust function.
pub const RUST_FUNCTION_TEMPLATE: &'static str = r##"use crate::FunctionContext;
use serde_json::{json, Value};

pub fn handle(event: Value, ctx: &FunctionContext) -> Value {
    json!({
        "function": ctx.name.clone(),
        "event": event,
    })
}
"##;

/// `src/main.rs` of a Rust function: the HTTP server around the handler.
pub const RUST_RUNTIME_MAIN: &'static str = r##"use serde_json::{json, Value};
use std::env;
use std::io::{BufRead, BufReader, Read, Write};
use std::net::{TcpListener, TcpStream};
use std::sync::Arc;
use std::thread;

mod function;

#[derive(Clone)]
pub struct FunctionContext {
    pub namespace: String,
    pub name: String,
}

fn main() {
    let port = env::var("PORT").unwrap_or_else(|_| "8080".to_string());
    let addr = format!("0.0.0.0:{port}");
    let ctx = Arc::new(FunctionContext {
        namespace: env::var("FUNCTION_NAMESPACE").unwrap_or_else(|_| "default".to_string()),
        name: env::var("FUNCTION_NAME").unwrap_or_default(),
    });
    let listener = TcpListener::bind(&addr).unwrap_or_else(|error| {
        panic!("failed to bind {addr}: {error}");
    });
    for stream in listener.incoming() {
        match stream {
            Ok(stream) => {
                let ctx = Arc::clone(&ctx);
                thread::spawn(move || handle_connection(stream, &ctx));
            }
            Err(error) => eprintln!("accept failed: {error}"),
        }
    }
}

fn handle_connection(mut stream: TcpStream, ctx: &FunctionContext) {
    if let Err(error) = serve(&mut stream, ctx) {
        let body = json!({"error": error.to_string()}).to_string();
        let _ = write_response(&mut stream, 500, "application/json", body.as_bytes());
    }
}

fn serve(stream: &mut TcpStream, ctx: &FunctionContext) -> Result<(), Box<dyn std::error::Error>> {
    let mut reader = BufReader::new(stream.try_clone()?);
    let mut request_line = String::new();
    if reader.read_line(&mut request_line)? == 0 {
        return Ok(());
    }
    let mut parts = request_line.split_whitespace();
    let method = parts.next().unwrap_or("");
    let path = parts.next().unwrap_or("/");
    let mut content_length = 0usize;
    loop {
        let mut line = String::new();
        if reader.read_line(&mut line)? == 0 {
            break;
        }
        let trimmed = line.trim_end_matches(['\r', '\n']);
        if trimmed.is_empty() {
            break;
        }
        if let Some((name, value)) = trimmed.split_once(':') {
            if name.eq_ignore_ascii_case("content-length") {
                content_length = value.trim().parse::<usize>().unwrap_or(0);
            }
        }
    }
    if method == "GET" && matches!(path, "/healthz" | "/health/liveness" | "/health/readiness") {
        return write_json(stream, 200, &json!({"ok": true}));
    }
    let mut body = vec![0u8; content_length];
    if content_length > 0 {
        reader.read_exact(&mut body)?;
    }
    let event = if body.iter().any(|byte| !byte.is_ascii_whitespace()) {
        serde_json::from_slice::<Value>(&body)?
    } else {
        Value::Null
    };
    let result = function::handle(event, ctx);
    write_json(stream, 200, &result)
}

fn write_json(
    stream: &mut TcpStream,
    status: u16,
    value: &Value,
) -> Result<(), Box<dyn std::error::Error>> {
    let body = serde_json::to_vec(value)?;
    write_response(stream, status, "application/json", &body)
}

fn write_response(
    stream: &mut TcpStream,
    status: u16,
    content_type: &str,
    body: &[u8],
) -> Result<(), Box<dyn std::error::Error>> {
    let reason = match status {
        200 => "OK",
        400 => "Bad Request",
        404 => "Not Found",
        500 => "Internal Server Error",
        _ => "OK",
    };
    write!(
        stream,
        "HTTP/1.1 {status} {reason}\r\ncontent-type: {content_type}\r\ncontent-length: {}\r\nconnection: close\r\n\r\n",
        body.len()
    )?;
    stream.write_all(body)?;
    stream.flush()?;
    Ok(())
}
"##;

/// `function/func.py` of a Python function: the text before the function name.
pub const PYTHON_FUNC_HEAD: &'static str = r##"import json


def new():
    return Function()


class Function:
    async def handle(self, scope, receive, send):
        message = await receive()
        body = message.get("body", b"")
        event = json.loads(body.decode("utf-8")) if body.strip() else None
        result = {"function": ""##;

/// `function/func.py` of a Python function: the text after the function name.
pub const PYTHON_FUNC_TAIL: &'static str = r##"", "event": event}
        payload = json.dumps(result).encode("utf-8")
        await send({
            "type": "http.response.start",
            "status": 200,
            "headers": [[b"content-type", b"application/json"]],
        })
        await send({
            "type": "http.response.body",
            "body": payload,
        })

    def alive(self):
        return True, "alive"

    def ready(self):
        return True, "ready"
"##;

/// `pyproject.toml` of a Python function: the text before the name.
pub const PYPROJECT_HEAD: &'static str = r##"[project]
name = ""##;

/// `pyproject.toml` of a Python function: the text after the name.
pub const PYPROJECT_TAIL: &'static str = r##""
version = "0.1.0"
requires-python = ">=3.12"
"##;

/// `Dockerfile` of a Python function: the text before the port.
pub const PYTHON_DOCKERFILE_HEAD: &'static str = r##"FROM python:3.12-slim
WORKDIR /workspace
COPY . /workspace
RUN if [ -f requirements.txt ]; then pip install --no-cache-dir -r requirements.txt; fi
ENV PORT="##;

/// `Dockerfile` of a Python function: the text between the two ports.
pub const PYTHON_DOCKERFILE_MID: &'static str = r##"
EXPOSE "##;

/// `Dockerfile` of a Python function: the text after the second port.
pub const PYTHON_DOCKERFILE_TAIL: &'static str = r##"
CMD ["python", "-m", "function.app"]
"##;

/// `Cargo.toml` of a Rust function: the text before the package name.
pub const CARGO_TOML_HEAD: &'static str = r##"[package]
name = ""##;

/// `Cargo.toml` of a Rust function: the text after the package name.
pub const CARGO_TOML_TAIL: &'static str = r##""
version = "0.1.0"
edition = "2024"

[dependencies]
serde_json = "1"

[workspace]
"##;

/// `Dockerfile` of a Rust function: the text before the binary name.
pub const RUST_DOCKERFILE_HEAD: &'static str = r##"FROM rust:1.88-slim AS build
WORKDIR /workspace
RUN rustup target add x86_64-unknown-linux-musl
COPY . /workspace
RUN cargo build --release --target x86_64-unknown-linux-musl

FROM scratch
COPY --from=build /workspace/target/x86_64-unknown-linux-musl/release/"##;

/// `Dockerfile` of a Rust function: the text between the binary name and the port.
pub const RUST_DOCKERFILE_AFTER_NAME: &'static str = r##" /function
ENV PORT="##;

/// `Dockerfile` of a Rust function: the text between the two ports.
pub const RUST_DOCKERFILE_AFTER_PORT: &'static str = r##"
EXPOSE "##;

/// `Dockerfile` of a Rust function: the text after the second port.
pub const RUST_DOCKERFILE_TAIL: &'static str = r##"
CMD ["/function"]
"##;

/// `Dockerfile` of a built Rust binary's image: the text before the port.
pub const IMAGE_DOCKERFILE_HEAD: &'static str = r##"FROM scratch
COPY function /function
ENV PORT="##;

/// `Dockerfile` of a built Rust binary's image: the text between the two ports.
pub const IMAGE_DOCKERFILE_MID: &'static str = r##"
EXPOSE "##;

/// `Dockerfile` of a built Rust binary's image: the text after the second port.
pub const IMAGE_DOCKERFILE_TAIL: &'static str = r##"
CMD ["/function"]
"##;

/// `function/func.py` of a Python function named `name`.
pub open spec fn python_template_spec(name: Seq<char>) -> Seq<char> {
    PYTHON_FUNC_HEAD@ + name + PYTHON_FUNC_TAIL@
}

/// `pyproject.toml` of a Python function named `name`.
pub open spec fn python_pyproject_spec(name: Seq<char>) -> Seq<char> {
    PYPROJECT_HEAD@ + name + PYPROJECT_TAIL@
}

/// `Dockerfile` of a Python function listening on `port`.
pub open spec fn python_dockerfile_spec(port: u16) -> Seq<char> {
    PYTHON_DOCKERFILE_HEAD@ + decimal(port as nat) + PYTHON_DOCKERFILE_MID@ + decimal(port as nat) + PYTHON_DOCKERFILE_TAIL@
}

/// `Cargo.toml` of a Rust function named `name`.
pub open spec fn cargo_toml_spec(name: Seq<char>) -> Seq<char> {
    CARGO_TOML_HEAD@ + name + CARGO_TOML_TAIL@
}

/// `Dockerfile` of a Rust function named `name` listening on `port`.
pub open spec fn dockerfile_spec(name: Seq<char>, port: u16) -> Seq<char> {
    RUST_DOCKERFILE_HEAD@ + name + RUST_DOCKERFILE_AFTER_NAME@ + decimal(port as nat) + RUST_DOCKERFILE_AFTER_PORT@
        + decimal(port as nat) + RUST_DOCKERFILE_TAIL@
}

/// `Dockerfile` of the image a built Rust binary listening on `port` runs in.
pub open spec fn runtime_image_dockerfile_spec(port: u16) -> Seq<char> {
    IMAGE_DOCKERFILE_HEAD@ + decimal(port as nat) + IMAGE_DOCKERFILE_MID@ + decimal(port as nat) + IMAGE_DOCKERFILE_TAIL@
}

fn around_twice(head: &str, value: &str, mid: &str, tail: &str) -> (r: String)
    ensures
        r@ == head@ + value@ + mid@ + value@ + tail@,
{
    let mut r = concat3(head, value, mid);
    r.append(value);
    r.append(tail);
    r
}

/// The handler module of a new Python function.
pub fn python_template(name: &str) -> (r: String)
    ensures
        r@ == python_template_spec(name@),
{
    concat3(PYTHON_FUNC_HEAD, name, PYTHON_FUNC_TAIL)
}

/// The test module of a new Python function.
pub fn python_test_template() -> (r: &'static str)
    ensures
        r@ == PYTHON_TEST_TEMPLATE@,
{
    PYTHON_TEST_TEMPLATE
}

/// The server module of a new Python function.
pub fn python_app_template() -> (r: &'static str)
    ensures
        r@ == PYTHON_APP_TEMPLATE@,
{
    PYTHON_APP_TEMPLATE
}

/// The project file of a new Python function.
pub fn python_pyproject(name: &str) -> (r: String)
    ensures
        r@ == python_pyproject_spec(name@),
{
    concat3(PYPROJECT_HEAD, name, PYPROJECT_TAIL)
}

/// The image recipe of a Python function.
pub fn python_dockerfile(port: u16) -> (r: String)
    ensures
        r@ == python_dockerfile_spec(port),
{
    let p = decimal_text(port as u64);
    around_twice(PYTHON_DOCKERFILE_HEAD, p.as_str(), PYTHON_DOCKERFILE_MID, PYTHON_DOCKERFILE_TAIL)
}

/// The manifest of a new Rust function.
pub fn cargo_toml(name: &str) -> (r: String)
    ensures
        r@ == cargo_toml_spec(name@),
{
    concat3(CARGO_TOML_HEAD, name, CARGO_TOML_TAIL)
}

/// The handler module of a new Rust function.
pub fn function_template() -> (r: &'static str)
    ensures
        r@ == RUST_FUNCTION_TEMPLATE@,
{
    RUST_FUNCTION_TEMPLATE
}

/// The server of a new Rust function.
pub fn runtime_main() -> (r: &'static str)
    ensures
        r@ == RUST_RUNTIME_MAIN@,
{
    RUST_RUNTIME_MAIN
}

/// The image recipe of a Rust function built inside Docker.
pub fn dockerfile(name: &str, port: u16) -> (r: String)
    ensures
        r@ == dockerfile_spec(name@, port),
{
    let p = decimal_text(port as u64);
    let mut r = concat3(RUST_DOCKERFILE_HEAD, name, RUST_DOCKERFILE_AFTER_NAME);
    r.append(p.as_str());
    r.append(RUST_DOCKERFILE_AFTER_PORT);
    r.append(p.as_str());
    r.append(RUST_DOCKERFILE_TAIL);
    r
}

/// The image recipe around a Rust binary built on the host.
pub fn runtime_image_dockerfile(port: u16) -> (r: String)
    ensures
        r@ == runtime_image_dockerfile_spec(port),
{
    let p = decimal_text(port as u64);
    around_twice(IMAGE_DOCKERFILE_HEAD, p.as_str(), IMAGE_DOCKERFILE_MID, IMAGE_DOCKERFILE_TAIL)
}

} // verus!
