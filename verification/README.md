# drain_server

An HTTP/1.1 server with static files, dynamic pages from a shared library, CGI,
compression and TLS, whose request and response logic is verified with Verus.

- `src/` is the verified library:
  - `text`, `fields`: byte-string helpers and an ordered map of header fields with
    distinct names;
  - `request`, `body`: the request grammar, `Request::parse_from_string`, body length,
    decompression and form data;
  - `response`: the bytes of a response, header merging, compression;
  - `config`: configuration checks, response coding, access and CGI rules, TLS choices;
  - `routing`, `pages`: what each handler answers (dynamic pages, static files, ETags,
    methods, directories, errors) and the server's own pages;
  - `cgi`: the CGI environment, script lookup, exit status and output parsing;
  - `mime`, `date`, `codec`: media types, the `Date` header, gzip and Brotli, each
    through a small trusted wrapper around its crate;
  - `laws`: properties that span functions, as proof functions.
- `app/` is the program around it: configuration loading, sockets and TLS, the file
  system, the endpoint library and the CGI process.
- `tests/` runs the library on concrete requests and responses.
