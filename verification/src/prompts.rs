//! What the model is told.

use vstd::prelude::*;
use vstd::string::StringExecFns;
use crate::categories::{category_names, content_categories, name_views};
use crate::text::{decimal, joined, push_decimal};

verus! {

/// The system prompt of the answer engine: answer from the context
/// only, and cite chunks by their id in square brackets.
pub const RAG_SYSTEM_PROMPT: &'static str = r#"You are RECALL.OS, an AI assistant that answers questions based on the user's personal knowledge base.

## Instructions

1. **Use Only Provided Context**: Answer questions using ONLY the information in the <context> section. Do not use external knowledge.

2. **Cite Your Sources**: When you use information from a chunk, cite it using [chunk_id] format. For example: "The project started in 2024 [123]."

3. **Be Honest About Limitations**: If the context doesn't contain enough information, say "I don't have detailed information about that in your knowledge base." Never claim you "cannot" do something - you CAN read all file types, but the content may not have been fully extracted.

4. **Preserve Details**: Include specific details, numbers, dates, and names from the context when relevant.

5. **Handle Timestamps**: For video/audio sources, mention timestamps when relevant so users can jump to that point.

6. **Handle Page Numbers**: For documents, reference page numbers when helpful for navigation.

7. **Use Your Knowledge for General Questions**: For general knowledge questions (like "what is coffee?"), you may use your training knowledge to provide helpful explanations, while noting that the user's knowledge base only contains what was indexed.

8. **Be Conversational**: Remember the conversation history and provide coherent follow-up responses.

## Response Format

Provide clear, well-organized answers. Use markdown formatting when appropriate:
- Use bullet points for lists
- Use headers for long answers with multiple sections
- Use code blocks for code or technical content

When citing sources, naturally integrate citations into your response."#;

/// The system prompt of a request that brings none.
pub const DEFAULT_SYSTEM_PROMPT: &'static str = r#"You are a helpful AI assistant that answers questions based on the provided context.

INSTRUCTIONS:
1. Only use information from the provided context to answer questions
2. If the context doesn't contain relevant information, say so clearly
3. When citing sources, use the format [chunk_id] to reference specific chunks
4. Be concise but thorough in your answers
5. If asked about topics not in the context, explain what information IS available

FORMAT YOUR CITATIONS:
When you use information from a chunk, cite it like this: [123] where 123 is the chunk id."#;

/// What the model is asked about an image.
pub const IMAGE_PROMPT: &'static str = "Extract ALL text from this image. Output only the raw text, preserving formatting. If no text is visible, output: [NO TEXT DETECTED]";

/// What the model is asked about a recording.
pub const TRANSCRIBE_PROMPT: &'static str = "Transcribe the following audio. Provide a verbatim transcription with timestamps for each speaker turn or paragraph. Format: [MM:SS] text";

/// What the model is asked about a single page.
pub const PAGE_PROMPT: &'static str = "Extract ALL text from this document page. Transcribe every word exactly as it appears, preserving structure. Output ONLY the extracted text, no commentary.";

/// What the model is asked about a whole PDF.
pub const PDF_PROMPT: &'static str = "Extract ALL text from this PDF document. This appears to be a scanned or image-based PDF. Transcribe every word visible on each page, preserving:\n1. Paragraph structure\n2. Headers and section titles\n3. Lists and bullet points\n4. Table content (as plain text)\n\nDo NOT summarize. Provide the complete verbatim text content.";

/// The system prompt of the request for a category.
pub const CATEGORY_SYSTEM_PROMPT: &'static str = "You are a document categorization assistant. Respond with only the category name.";

/// The model that answers, reads and describes.
pub const GENERATION_MODEL: &'static str = "gemini-2.0-flash";

/// The start of the request for a title; the content follows.
pub open spec fn title_prompt_head() -> Seq<char> {
    r#"Write a very short title (3-6 words MAX) for this content. Be extremely brief.
Rules:
- Maximum 6 words, preferably 3-4
- No colons, no subtitles
- No quotes around the title
- Just output the title, nothing else

Content:
"#@
}

/// Asks for a title of the content `sample`.
pub fn title_prompt(sample: &str) -> (r: String)
    ensures
        r@ == title_prompt_head() + sample@,
{
    let mut r = String::new();
    r.append(r#"Write a very short title (3-6 words MAX) for this content. Be extremely brief.
Rules:
- Maximum 6 words, preferably 3-4
- No colons, no subtitles
- No quotes around the title
- Just output the title, nothing else

Content:
"#);
    r.append(sample);
    r
}

/// The start of the request to read a batch of `count` pages.
pub open spec fn batch_prompt_text(count: nat) -> Seq<char> {
    "Extract ALL text from these "@ + decimal(count)
        + " document page(s). For EACH page, output the text in this exact format:\n\n[PAGE X]\n<text from page X>\n\nRules:\n- Transcribe every word exactly as it appears\n- Preserve paragraph structure and line breaks\n- Include headers, lists, tables (as plain text)\n- Do NOT summarize - provide complete verbatim text\n- If text is unclear, make your best interpretation\n- Output ONLY the extracted text with [PAGE X] markers, no commentary"@
}

/// Asks for the text of a batch of `count` pages, each under a marker
/// with its number.
pub fn batch_ocr_prompt(count: usize) -> (r: String)
    ensures
        r@ == batch_prompt_text(count as nat),
{
    let mut r = String::new();
    r.append("Extract ALL text from these ");
    push_decimal(&mut r, count as u64);
    r.append(
        " document page(s). For EACH page, output the text in this exact format:\n\n[PAGE X]\n<text from page X>\n\nRules:\n- Transcribe every word exactly as it appears\n- Preserve paragraph structure and line breaks\n- Include headers, lists, tables (as plain text)\n- Do NOT summarize - provide complete verbatim text\n- If text is unclear, make your best interpretation\n- Output ONLY the extracted text with [PAGE X] markers, no commentary",
    );
    proof {
        assert(r@ =~= batch_prompt_text(count as nat));
    }
    r
}

/// The label before page number `number` in a batch.
pub fn page_label(number: u32) -> (r: String)
    ensures
        r@ == "Page "@ + decimal(number as nat) + ":"@,
{
    let mut r = String::new();
    r.append("Page ");
    push_decimal(&mut r, number as u64);
    r.append(":");
    proof {
        assert(r@ =~= "Page "@ + decimal(number as nat) + ":"@);
    }
    r
}

/// The request for the category of a document with title `title` and
/// content `sample`.
pub open spec fn categorization_text(title: Seq<char>, sample: Seq<char>) -> Seq<char> {
    r#"Analyze this document and categorize it into ONE of these categories:
- "#@ + joined(category_names(), "\n- "@, category_names().len() as int) + r#"

Document title: "#@
        + title + r#"
Content sample:
"#@ + sample + r#"

Respond with ONLY the category name, nothing else."#@
}

/// Asks for the category of a document.
pub fn categorization_prompt(title: &str, sample: &str) -> (r: String)
    ensures
        r@ == categorization_text(title@, sample@),
{
    let names = content_categories();
    let mut r = String::new();
    r.append(r#"Analyze this document and categorize it into ONE of these categories:
- "#);
    let ghost head = r@;
    let ghost texts = name_views(names@);
    let mut i: usize = 0;
    while i < names.len()
        invariant
            i <= names.len(),
            texts == name_views(names@),
            texts == category_names(),
            r@ == head + joined(texts, "\n- "@, i as int),
        decreases names.len() - i,
    {
        if i > 0 {
            r.append("\n- ");
        }
        r.append(names[i]);
        proof {
            assert(texts[i as int] == names@[i as int]@);
            if i == 0 {
                assert(joined(texts, "\n- "@, 0) =~= Seq::<char>::empty());
                assert(r@ =~= head + joined(texts, "\n- "@, 1));
            } else {
                assert(r@ =~= head + (joined(texts, "\n- "@, i as int) + "\n- "@ + texts[i as int]));
            }
        }
        i += 1;
    }
    proof {
        assert(texts.len() == names@.len());
    }
    r.append(r#"

Document title: "#);
    r.append(title);
    r.append(r#"
Content sample:
"#);
    r.append(sample);
    r.append(r#"

Respond with ONLY the category name, nothing else."#);
    proof {
        assert(r@ =~= categorization_text(title@, sample@));
    }
    r
}

} // verus!
