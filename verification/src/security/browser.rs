use vstd::prelude::*;

verus! {

/// The Content Security Policy sent with every response.
pub const CONTENT_SECURITY_POLICY: &'static str = "default-src 'self'; script-src 'self' 'unsafe-inline' https://cdn.tailwindcss.com https://cdn.jsdelivr.net; style-src 'self' 'unsafe-inline' https://cdn.tailwindcss.com; img-src 'self' data:; connect-src 'self' http://localhost:3000;";

/// The security headers injected into every response, as (name, value) pairs:
/// a strict Content Security Policy, anti-clickjacking, no MIME sniffing and a
/// privacy-preserving referrer policy.
pub fn security_headers() -> (headers: Vec<(&'static str, &'static str)>)
    ensures
        headers.len() == 4,
        headers[0].0@ == "content-security-policy"@ && headers[0].1@ == CONTENT_SECURITY_POLICY@,
        headers[1].0@ == "x-frame-options"@ && headers[1].1@ == "DENY"@,
        headers[2].0@ == "x-content-type-options"@ && headers[2].1@ == "nosniff"@,
        headers[3].0@ == "referrer-policy"@ && headers[3].1@ == "strict-origin-when-cross-origin"@,
{
    let mut headers: Vec<(&'static str, &'static str)> = Vec::new();
    headers.push(("content-security-policy", CONTENT_SECURITY_POLICY));
    headers.push(("x-frame-options", "DENY"));
    headers.push(("x-content-type-options", "nosniff"));
    headers.push(("referrer-policy", "strict-origin-when-cross-origin"));
    headers
}

} // verus!
