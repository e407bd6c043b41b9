//! Which format a checkpoint is in.
//!
//! The name of the file decides; where it does not, the first bytes do.

use vstd::prelude::*;

use crate::checkpoint::proto;
use crate::text;

verus! {

/// How a checkpoint is read.
#[derive(Debug, Clone, Copy, PartialEq, Eq, Structural)]
pub enum Format {
    SafetensorsIndex,
    Safetensors,
    Pickle,
    Npz,
    Npy,
    Gguf,
    Onnx,
    Hdf5,
    Keras,
    /// The first bytes decide.
    Unnamed,
}

/// What the first bytes of a file say.
#[derive(Debug, Clone, Copy, PartialEq, Eq, Structural)]
pub enum Sniffed {
    SafeTensors,
    Gguf,
    Hdf5,
    Unknown,
}

/// Why a path is no checkpoint.
#[derive(Debug, Clone, Copy, PartialEq, Eq, Structural)]
pub enum NoCheckpoint {
    /// A directory with a TensorFlow model in it.
    SavedModel,
    /// Any other directory.
    Directory,
    /// A part of a TensorFlow checkpoint.
    TensorFlow,
    /// A file of no known format.
    Unrecognized,
}

/// What to do with TensorFlow weights.
pub open spec fn tensorflow_help() -> Seq<char> {
    "TensorFlow SavedModel / checkpoint weights (TensorBundle format) can't be read natively. Export them to safetensors first with the bundled script (needs tensorflow + safetensors installed):\n\n    python zsfm-rs/tools/export-weights.py <saved_model_dir | ckpt_prefix> weights.safetensors\n\nthen run: zsfm convert weights.safetensors -o model.gguf\n(Keras .h5 / .keras files ARE supported natively — no export needed.)"@
}

impl NoCheckpoint {
    /// What is wrong with the path, in words.
    pub open spec fn text(self, path: Seq<char>) -> Seq<char> {
        match self {
            NoCheckpoint::SavedModel => path + " is a TensorFlow SavedModel directory. "@ + tensorflow_help(),
            NoCheckpoint::Directory => path
                + " is a directory — pass a checkpoint file (or for sharded safetensors, the model.safetensors.index.json)"@,
            NoCheckpoint::TensorFlow => path + " looks like a TensorFlow checkpoint file. "@ + tensorflow_help(),
            NoCheckpoint::Unrecognized => "unrecognized checkpoint format for "@ + path
                + " — supported: .safetensors, model.safetensors.index.json, .pt/.pth/.bin/.ckpt (PyTorch pickle), .npy/.npz, .onnx, .h5/.hdf5, .keras, .gguf"@,
        }
    }

    /// What is wrong with the path, in words.
    pub fn message(self, path: &str) -> (r: String)
        ensures
            r@ == self.text(path@),
    {
        let help: &str =
            "TensorFlow SavedModel / checkpoint weights (TensorBundle format) can't be read natively. Export them to safetensors first with the bundled script (needs tensorflow + safetensors installed):\n\n    python zsfm-rs/tools/export-weights.py <saved_model_dir | ckpt_prefix> weights.safetensors\n\nthen run: zsfm convert weights.safetensors -o model.gguf\n(Keras .h5 / .keras files ARE supported natively — no export needed.)";
        match self {
            NoCheckpoint::SavedModel => {
                let mut s: String = text::join2(path, " is a TensorFlow SavedModel directory. ");
                s.append(help);
                s
            },
            NoCheckpoint::Directory => text::join2(
                path,
                " is a directory — pass a checkpoint file (or for sharded safetensors, the model.safetensors.index.json)",
            ),
            NoCheckpoint::TensorFlow => {
                let mut s: String = text::join2(path, " looks like a TensorFlow checkpoint file. ");
                s.append(help);
                s
            },
            NoCheckpoint::Unrecognized => {
                let mut s: String = text::join2("unrecognized checkpoint format for ", path);
                s.append(
                    " — supported: .safetensors, model.safetensors.index.json, .pt/.pth/.bin/.ckpt (PyTorch pickle), .npy/.npz, .onnx, .h5/.hdf5, .keras, .gguf",
                );
                s
            },
        }
    }
}

/// Whether the file is a part of a TensorFlow checkpoint.
pub open spec fn tensorflow_part(file_name: Seq<char>, extension: Seq<char>) -> bool {
    text::lowered(extension) == "index"@ || text::holds(text::lowered(file_name), ".data-00"@)
}

/// The format that a file's name and extension stand for, in capital or small letters.
pub open spec fn named_format(file_name: Seq<char>, extension: Seq<char>) -> Format {
    let ext = text::lowered(extension);
    if text::has_suffix(text::lowered(file_name), ".safetensors.index.json"@) {
        Format::SafetensorsIndex
    } else if ext == "safetensors"@ {
        Format::Safetensors
    } else if ext == "pt"@ || ext == "pth"@ || ext == "bin"@ || ext == "ckpt"@ {
        Format::Pickle
    } else if ext == "npz"@ {
        Format::Npz
    } else if ext == "npy"@ {
        Format::Npy
    } else if ext == "gguf"@ {
        Format::Gguf
    } else if ext == "onnx"@ {
        Format::Onnx
    } else if ext == "h5"@ || ext == "hdf5"@ {
        Format::Hdf5
    } else if ext == "keras"@ {
        Format::Keras
    } else {
        Format::Unnamed
    }
}

/// The format of the file or directory at a path, as far as its name says. `saved_model` is
/// whether it is a directory that holds `saved_model.pb`.
pub fn format_by_name(file_name: &str, extension: &str, is_dir: bool, saved_model: bool) -> (r: Result<
    Format,
    NoCheckpoint,
>)
    ensures
        r == (if is_dir {
            Err::<Format, NoCheckpoint>(
                if saved_model {
                    NoCheckpoint::SavedModel
                } else {
                    NoCheckpoint::Directory
                },
            )
        } else if tensorflow_part(file_name@, extension@) {
            Err(NoCheckpoint::TensorFlow)
        } else {
            Ok(named_format(file_name@, extension@))
        }),
{
    let name: String = text::to_lower(file_name);
    let ext: String = text::to_lower(extension);
    if is_dir {
        return Err(if saved_model { NoCheckpoint::SavedModel } else { NoCheckpoint::Directory });
    }
    let e = ext.as_str();
    if text::same(e, "index") || text::contains(name.as_str(), ".data-00") {
        return Err(NoCheckpoint::TensorFlow);
    }
    if text::ends_with(name.as_str(), ".safetensors.index.json") {
        return Ok(Format::SafetensorsIndex);
    }
    if text::same(e, "safetensors") {
        Ok(Format::Safetensors)
    } else if text::same(e, "pt") || text::same(e, "pth") || text::same(e, "bin") || text::same(e, "ckpt") {
        Ok(Format::Pickle)
    } else if text::same(e, "npz") {
        Ok(Format::Npz)
    } else if text::same(e, "npy") {
        Ok(Format::Npy)
    } else if text::same(e, "gguf") {
        Ok(Format::Gguf)
    } else if text::same(e, "onnx") {
        Ok(Format::Onnx)
    } else if text::same(e, "h5") || text::same(e, "hdf5") {
        Ok(Format::Hdf5)
    } else if text::same(e, "keras") {
        Ok(Format::Keras)
    } else {
        Ok(Format::Unnamed)
    }
}

/// The first four bytes of a GGUF file.
pub open spec fn gguf_magic() -> Seq<u8> {
    seq![0x47, 0x47, 0x55, 0x46]
}

/// The first eight bytes of an HDF5 file.
pub open spec fn hdf5_magic() -> Seq<u8> {
    seq![0x89, 0x48, 0x44, 0x46, 0x0d, 0x0a, 0x1a, 0x0a]
}

/// Whether the head is that of a safetensors file: the length of a header that is not empty and
/// fits in the file, and the brace that opens it.
pub open spec fn safetensors_head(head: Seq<u8>, file_len: u64) -> bool {
    &&& head.len() >= 9
    &&& 0 < proto::le64_at(head, 0)
    &&& (proto::le64_at(head, 0) + 8 <= file_len || file_len == u64::MAX)
    &&& head[8] == 0x7b
}

/// What the first bytes of a file say.
pub open spec fn sniffed(head: Seq<u8>, file_len: u64) -> Sniffed {
    if head.len() >= 4 && head.take(4) == gguf_magic() {
        Sniffed::Gguf
    } else if head.len() >= 8 && head.take(8) == hdf5_magic() {
        Sniffed::Hdf5
    } else if safetensors_head(head, file_len) {
        Sniffed::SafeTensors
    } else {
        Sniffed::Unknown
    }
}

/// What the first bytes of a file say, given the file's length. Nine bytes are enough.
pub fn sniff_format(head: &[u8], file_len: u64) -> (r: Sniffed)
    ensures
        r == sniffed(head@, file_len),
{
    let n: usize = head.len();
    if n >= 4 && head[0] == 0x47 && head[1] == 0x47 && head[2] == 0x55 && head[3] == 0x46 {
        assert(head@.take(4) =~= gguf_magic());
        return Sniffed::Gguf;
    }
    assert(n >= 4 ==> head@.take(4) != gguf_magic()) by {
        if n >= 4 && head@.take(4) == gguf_magic() {
            assert(head@.take(4)[0] == 0x47 && head@.take(4)[1] == 0x47 && head@.take(4)[2] == 0x55
                && head@.take(4)[3] == 0x46);
        }
    }
    if n >= 8 && head[0] == 0x89 && head[1] == 0x48 && head[2] == 0x44 && head[3] == 0x46 && head[4] == 0x0d && head[5]
        == 0x0a && head[6] == 0x1a && head[7] == 0x0a {
        assert(head@.take(8) =~= hdf5_magic());
        return Sniffed::Hdf5;
    }
    assert(n >= 8 ==> head@.take(8) != hdf5_magic()) by {
        if n >= 8 && head@.take(8) == hdf5_magic() {
            let m = head@.take(8);
            assert(m[0] == 0x89 && m[1] == 0x48 && m[2] == 0x44 && m[3] == 0x46 && m[4] == 0x0d && m[5] == 0x0a && m[6]
                == 0x1a && m[7] == 0x0a);
        }
    }
    if n >= 9 {
        let header: u64 = proto::read_le64(head, 0);
        if header > 0 && ((header <= u64::MAX - 8 && header + 8 <= file_len) || file_len == u64::MAX) && head[8] == 0x7b {
            return Sniffed::SafeTensors;
        }
    }
    Sniffed::Unknown
}

/// The format that the first bytes of a file give.
pub fn format_by_head(head: &[u8], file_len: u64) -> (r: Result<Format, NoCheckpoint>)
    ensures
        r == (match sniffed(head@, file_len) {
            Sniffed::SafeTensors => Ok::<Format, NoCheckpoint>(Format::Safetensors),
            Sniffed::Gguf => Ok(Format::Gguf),
            Sniffed::Hdf5 => Ok(Format::Hdf5),
            Sniffed::Unknown => Err(NoCheckpoint::Unrecognized),
        }),
{
    match sniff_format(head, file_len) {
        Sniffed::SafeTensors => Ok(Format::Safetensors),
        Sniffed::Gguf => Ok(Format::Gguf),
        Sniffed::Hdf5 => Ok(Format::Hdf5),
        Sniffed::Unknown => Err(NoCheckpoint::Unrecognized),
    }
}

/// What a file starts with decides, however much of it is looked at beyond nine bytes.
pub proof fn law_nine_bytes_decide(head: Seq<u8>, longer: Seq<u8>, file_len: u64)
    requires
        head.len() >= 9,
        longer.len() >= head.len(),
        longer.take(head.len() as int) == head,
    ensures
        sniffed(longer, file_len) == sniffed(head, file_len),
{
    assert forall|i: int| 0 <= i < head.len() implies longer[i] == head[i] by {
        assert(longer.take(head.len() as int)[i] == head[i]);
    }
    assert(longer.take(4) =~= head.take(4));
    assert(longer.take(8) =~= head.take(8));
}

/// The formats that extensions name, in small letters or capital ones.
pub proof fn law_extensions_name_formats(file_name: Seq<char>, extension: Seq<char>)
    requires
        !text::has_suffix(text::lowered(file_name), ".safetensors.index.json"@),
    ensures
        text::lowered(extension) == "safetensors"@ ==> named_format(file_name, extension) == Format::Safetensors,
        text::lowered(extension) == "pt"@ ==> named_format(file_name, extension) == Format::Pickle,
        text::lowered(extension) == "pth"@ ==> named_format(file_name, extension) == Format::Pickle,
        text::lowered(extension) == "bin"@ ==> named_format(file_name, extension) == Format::Pickle,
        text::lowered(extension) == "ckpt"@ ==> named_format(file_name, extension) == Format::Pickle,
        text::lowered(extension) == "npz"@ ==> named_format(file_name, extension) == Format::Npz,
        text::lowered(extension) == "npy"@ ==> named_format(file_name, extension) == Format::Npy,
        text::lowered(extension) == "gguf"@ ==> named_format(file_name, extension) == Format::Gguf,
        text::lowered(extension) == "onnx"@ ==> named_format(file_name, extension) == Format::Onnx,
        text::lowered(extension) == "h5"@ ==> named_format(file_name, extension) == Format::Hdf5,
        text::lowered(extension) == "hdf5"@ ==> named_format(file_name, extension) == Format::Hdf5,
        text::lowered(extension) == "keras"@ ==> named_format(file_name, extension) == Format::Keras,
        named_format(file_name, extension) != Format::SafetensorsIndex,
        named_format(file_name, extension) != Format::Unnamed ==> ({
            ||| text::lowered(extension) == "safetensors"@
            ||| text::lowered(extension) == "pt"@
            ||| text::lowered(extension) == "pth"@
            ||| text::lowered(extension) == "bin"@
            ||| text::lowered(extension) == "ckpt"@
            ||| text::lowered(extension) == "npz"@
            ||| text::lowered(extension) == "npy"@
            ||| text::lowered(extension) == "gguf"@
            ||| text::lowered(extension) == "onnx"@
            ||| text::lowered(extension) == "h5"@
            ||| text::lowered(extension) == "hdf5"@
            ||| text::lowered(extension) == "keras"@
        }),
{
    reveal_strlit("safetensors");
    reveal_strlit("pt");
    reveal_strlit("pth");
    reveal_strlit("bin");
    reveal_strlit("ckpt");
    reveal_strlit("npz");
    reveal_strlit("npy");
    reveal_strlit("gguf");
    reveal_strlit("onnx");
    reveal_strlit("h5");
    reveal_strlit("hdf5");
    reveal_strlit("keras");
    assert("safetensors"@.len() == 11 && "safetensors"@[10] == 's');
    assert("pt"@.len() == 2 && "pt"@[1] == 't');
    assert("pth"@.len() == 3 && "pth"@[2] == 'h');
    assert("bin"@.len() == 3 && "bin"@[2] == 'n');
    assert("ckpt"@.len() == 4 && "ckpt"@[3] == 't');
    assert("npz"@.len() == 3 && "npz"@[2] == 'z');
    assert("npy"@.len() == 3 && "npy"@[2] == 'y');
    assert("gguf"@.len() == 4 && "gguf"@[3] == 'f');
    assert("onnx"@.len() == 4 && "onnx"@[3] == 'x');
    assert("h5"@.len() == 2 && "h5"@[1] == '5');
    assert("hdf5"@.len() == 4 && "hdf5"@[3] == '5');
    assert("keras"@.len() == 5 && "keras"@[4] == 's');
}

/// An index of shards is told by the end of its name, whatever its extension.
pub proof fn law_indices_by_name(file_name: Seq<char>, extension: Seq<char>)
    requires
        text::has_suffix(text::lowered(file_name), ".safetensors.index.json"@),
    ensures
        named_format(file_name, extension) == Format::SafetensorsIndex,
{
}

/// Parts of a TensorFlow checkpoint are its index and its numbered data.
pub proof fn law_parts_of_tensorflow(file_name: Seq<char>, extension: Seq<char>)
    ensures
        text::lowered(extension) == "index"@ ==> tensorflow_part(file_name, extension),
        text::holds(text::lowered(file_name), ".data-00"@) ==> tensorflow_part(file_name, extension),
        text::lowered(extension) != "index"@ && !text::holds(text::lowered(file_name), ".data-00"@)
            ==> !tensorflow_part(file_name, extension),
{
}

/// How files of each format start: with the letters GGUF, with the signature of HDF5, or with the length
/// of a header that fits and an opening brace.
pub proof fn law_heads_tell_formats(rest: Seq<u8>, file_len: u64, head: Seq<u8>)
    ensures
        sniffed(seq![0x47u8, 0x47u8, 0x55u8, 0x46u8] + rest, file_len) == Sniffed::Gguf,
        sniffed(seq![0x89u8, 0x48u8, 0x44u8, 0x46u8, 0x0du8, 0x0au8, 0x1au8, 0x0au8] + rest, file_len) == Sniffed::Hdf5,
        sniffed(head, file_len) == Sniffed::SafeTensors ==> head.len() >= 9 && head[8] == 0x7b,
        head.len() >= 9 && head[8] == 0x7b && head[0] != 0x47 && head[0] != 0x89 && head[4] == 0 && head[5] == 0 && head[6]
            == 0 && head[7] == 0 ==> ({
            let n = head[0] + 256 * head[1] + 65536 * head[2] + 16777216 * head[3];
            sniffed(head, file_len) == (if 0 < n && (n + 8 <= file_len || file_len == u64::MAX) {
                Sniffed::SafeTensors
            } else {
                Sniffed::Unknown
            })
        }),
{
    let g = seq![0x47u8, 0x47u8, 0x55u8, 0x46u8];
    assert((g + rest).take(4) =~= gguf_magic());
    let h = seq![0x89u8, 0x48u8, 0x44u8, 0x46u8, 0x0du8, 0x0au8, 0x1au8, 0x0au8];
    assert((h + rest).take(8) =~= hdf5_magic());
    assert((h + rest).take(4)[0] == 0x89);
    assert(gguf_magic()[0] == 0x47);
    if head.len() >= 9 {
        assert(head.take(4)[0] == head[0]);
        assert(head.take(8)[0] == head[0]);
        assert(hdf5_magic()[0] == 0x89);
    }
}

/// How what is no checkpoint is reported.
pub proof fn law_errors_are_worded(path: Seq<char>)
    ensures
        NoCheckpoint::SavedModel.text(path) == path + " is a TensorFlow SavedModel directory. "@ + tensorflow_help(),
        NoCheckpoint::Directory.text(path) == path
            + " is a directory — pass a checkpoint file (or for sharded safetensors, the model.safetensors.index.json)"@,
        NoCheckpoint::TensorFlow.text(path) == path + " looks like a TensorFlow checkpoint file. "@ + tensorflow_help(),
        NoCheckpoint::Unrecognized.text(path) == "unrecognized checkpoint format for "@ + path
            + " — supported: .safetensors, model.safetensors.index.json, .pt/.pth/.bin/.ckpt (PyTorch pickle), .npy/.npz, .onnx, .h5/.hdf5, .keras, .gguf"@,
{
}

} // verus!
