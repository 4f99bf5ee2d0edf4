//! The stylesheet stage: every file under a `sass` directory is compiled and
//! written, under the same relative path, to a file whose `.scss` extension
//! became `.css`. Walking directories, reading and writing files stay with the
//! caller; this module decides names and outcomes.
use vstd::prelude::*;

verus! {

#[verifier::external_type_specification]
#[verifier::external_body]
pub struct ExSassError(rsass::Error);

/// Why no output file name could be made for a source file.
#[derive(Debug)]
pub enum NameError {
    /// The file name is not valid Unicode; it holds the name, lossily decoded.
    NotUnicode(String),
    /// The file name does not end in `.scss`; it holds the name.
    WrongExtension(String),
}

/// Why a source file could not be compiled.
#[derive(Debug)]
pub enum CompileError {
    /// The stylesheet does not compile.
    Parse(rsass::Error),
    /// The output file cannot be named.
    Other(NameError),
}

/// The extension of stylesheet sources.
pub open spec fn source_extension() -> Seq<char> {
    ".scss"@
}

/// The extension of compiled stylesheets.
pub open spec fn output_extension() -> Seq<char> {
    ".css"@
}

/// A stylesheet named `source` has an output name: it ends in `.scss`.
pub open spec fn has_output_name(source: Seq<char>) -> bool {
    source.len() >= source_extension().len() && source.subrange(
        source.len() - source_extension().len(),
        source.len() as int,
    ) == source_extension()
}

/// `output` is the name that a stylesheet named `source` compiles to: the
/// source name without its final `.scss`, then `.css`.
pub open spec fn is_output_name(source: Seq<char>, output: Seq<char>) -> bool {
    output == source.subrange(0, source.len() - source_extension().len()) + output_extension()
}

/// `e` says that the file named `source` lacks the `.scss` extension.
pub open spec fn is_wrong_extension(e: CompileError, source: Seq<char>) -> bool {
    e matches CompileError::Other(NameError::WrongExtension(name)) && name@ == source
}

/// The name of the file that the stylesheet `file_name` compiles to: the
/// name without its final `.scss`, followed by `.css`. Fails with
/// [`NameError::WrongExtension`] where the name does not end in `.scss`.
pub fn replace_file_extension(file_name: &str) -> (r: Result<String, CompileError>)
    ensures
        r is Ok <==> has_output_name(file_name@),
        match r {
            Ok(name) => is_output_name(file_name@, name@),
            Err(e) => is_wrong_extension(e, file_name@),
        },
{
    let extension = ".scss";
    proof {
        reveal_strlit(".scss");
    }
    let n = file_name.unicode_len();
    let m = extension.unicode_len();
    if n >= m {
        let start = n - m;
        let mut k: usize = 0;
        while k < m
            invariant
                m == extension@.len(),
                extension@ == source_extension(),
                n == file_name@.len(),
                start + m == n,
                k <= m,
                forall|l: int| 0 <= l < k ==> file_name@[start + l] == extension@[l],
            decreases m - k,
        {
            if file_name.get_char(start + k) != extension.get_char(k) {
                assert(file_name@.subrange(start as int, n as int)[k as int] != extension@[k as int]);
                return Err(CompileError::Other(NameError::WrongExtension(String::from_str(file_name))));
            }
            k = k + 1;
        }
        assert(file_name@.subrange(start as int, n as int) =~= extension@);
        let mut name = String::from_str(file_name.substring_char(0, start));
        name.append(".css");
        Ok(name)
    } else {
        Err(CompileError::Other(NameError::WrongExtension(String::from_str(file_name))))
    }
}

/// What a stylesheet named `file_name` turns into, given what the compiler
/// made of its contents: the output file's name and the compiled bytes, or
/// the error that stops the stage. A compile error is reported before a bad
/// name, and nothing is to be written on either.
pub fn compiled_output(file_name: &str, compiled: Result<Vec<u8>, rsass::Error>) -> (r: Result<
    (String, Vec<u8>),
    CompileError,
>)
    ensures
        match compiled {
            Err(e) => r matches Err(CompileError::Parse(p)) && p == e,
            Ok(css) => {
                &&& r is Ok <==> has_output_name(file_name@)
                &&& match r {
                    Ok((name, bytes)) => is_output_name(file_name@, name@) && bytes == css,
                    Err(e) => is_wrong_extension(e, file_name@),
                }
            },
        },
{
    match compiled {
        Err(e) => Err(CompileError::Parse(e)),
        Ok(css) => match replace_file_extension(file_name) {
            Ok(name) => Ok((name, css)),
            Err(e) => Err(e),
        },
    }
}

} // verus!
