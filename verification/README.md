# hra

A tool that watches a Twitch stream for YouTube videos being reacted to,
records each one, finds its title, makes a thumbnail and uploads it.

- `src/` is the verified library (Verus): text clean-up and recognition
  (`text`), the character-level string model it rests on (`strings`), the
  prompts and requests for the language models and the reading of their
  replies (`prompts`, `gpt`, `llm`, `json`),
  screen areas (`screen`), the choice and naming of video files (`video`),
  thumbnail text choices and caption image (`thumbnail`) and the decisions of the watch loop
  (`monitor`).
- `app/` is the program around it: screen capture and OCR, keyboard
  automation, HTTP calls, the in-process model, image editing and file work.
- `tests/` runs the library on concrete values.
