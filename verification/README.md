# evocode

A terminal coding agent that talks to Groq's chat-completions API and runs
Bash commands the user approves. The decisions of the agent are a verified
library (`src/`); the program around it (`app/`) does the terminal, network,
process and file work.

- `src/text.rs`: Unicode whitespace and trimming, ASCII case folding, decimal
  printing and reading, joining.
- `src/config.rs`: settings from the environment, with defaults and bounds.
- `src/message.rs`: chat messages, tool calls, the system prompt.
- `src/repl.rs`: classifying user input, the `/history` listing.
- `src/session.rs`: what session files hold and which are accepted.
- `src/provider.rs`: retry decisions and error reporting for API requests.
- `src/bash.rs`: checking Bash tool calls, approval, output limits, reports.
- `src/agent.rs`: model turns, and the step function that answers a prompt:
  approval before every command, and at most the configured number of model
  turns.
- `src/conversation.rs`: what each line of input does to the conversation.
- `app/`: the command-line program (I/O, HTTP, JSON, processes), which
  performs the actions the library decides on.
